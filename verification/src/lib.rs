//! A round-robin Proof-of-Authority consensus core.  The engine decides
//! which member of a (possibly epoch-transitioning) validator set is
//! entitled to produce the block of any wall-clock step, produces the seal
//! that proves that entitlement, verifies peers' seals, and publishes step
//! changes to the block-production pipeline.  Beside it stands the chain
//! store: a column-partitioned key-value capability with a verified model,
//! used among other things to persist epoch transitions.
//!
//! Every contract is verified.  Configuration parsing, file handling and
//! thread plumbing stay outside the library and hand it plain values.

use vstd::prelude::*;

pub mod columns;
pub mod config;
pub mod rocksdb;
pub mod database;
pub mod engine;
pub mod persist;
pub mod seal;
pub mod step_clock;
pub mod test;
pub mod validator_set;

verus! {

/// An authority identity: an address derived from the holder's key.
pub type Address = u64;

/// The address that belongs to a signing key.
pub open spec fn spec_address_of(signing_key: u64) -> Address {
    (signing_key ^ 0x9e37_79b9_7f4a_7c15) as Address
}

/// Derives the public address that belongs to a signing key.
pub fn address_of(signing_key: u64) -> (r: Address)
    ensures
        r == spec_address_of(signing_key),
{
    signing_key ^ 0x9e37_79b9_7f4a_7c15
}

} // verus!
