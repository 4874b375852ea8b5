use vstd::prelude::*;
use crate::Address;

verus! {

/// Domain separator for the canonical encoding of a block seal.
pub const SEAL_DOMAIN: u8 = 0;

/// Domain separator for the canonical encoding of an empty-step attestation.
pub const EMPTY_STEP_DOMAIN: u8 = 1;

/// Offset basis of the 64-bit FNV-1a digest.
pub const DIGEST_BASIS: u64 = 0xcbf2_9ce4_8422_2325;

/// Multiplier of the 64-bit FNV-1a digest.
pub const DIGEST_PRIME: u64 = 0x0000_0100_0000_01b3;

/// An attestation, made by the author of a later block, that the named step
/// passed without a block.
#[derive(Clone, Copy, Debug, PartialEq, Eq, Structural)]
pub struct EmptyStepProof {
    pub step: u64,
    pub signature: u64,
}

/// The authenticated proof attached to a block header: the step the block
/// was produced in, the author's signature over the canonical encoding, and
/// one attestation for every step skipped since the parent block.
#[derive(Clone, Debug)]
pub struct Seal {
    pub step: u64,
    pub signature: u64,
    pub empty_step_proofs: Vec<EmptyStepProof>,
}

/// Why a seal was rejected.
#[derive(Clone, Copy, Debug, PartialEq, Eq, Structural)]
pub enum SealError {
    /// The signature does not verify against the expected proposer.
    BadSignature,
    /// The recovered signer is no member of the applicable validator set.
    UnknownAuthority,
    /// The seal's declared step is not strictly greater than the parent's.
    StepMismatch,
    /// A skipped step lacks a correctly formed attestation.
    MissingEmptyStepProof,
}

/// The eight bytes of `x`, most significant first.
pub open spec fn spec_be_bytes(x: u64) -> Seq<u8> {
    seq![
        (x >> 56) as u8,
        (x >> 48) as u8,
        (x >> 40) as u8,
        (x >> 32) as u8,
        (x >> 24) as u8,
        (x >> 16) as u8,
        (x >> 8) as u8,
        x as u8,
    ]
}

/// Canonical encoding that a block seal signs: the seal domain, the engine
/// identifier, the step, and the block content hash.
pub open spec fn spec_seal_message(engine_id: u64, step: u64, content_hash: u64) -> Seq<u8> {
    seq![SEAL_DOMAIN] + spec_be_bytes(engine_id) + spec_be_bytes(step) + spec_be_bytes(content_hash)
}

/// Canonical encoding that an empty-step attestation signs.
pub open spec fn spec_empty_step_message(engine_id: u64, step: u64, content_hash: u64) -> Seq<u8> {
    seq![EMPTY_STEP_DOMAIN] + spec_be_bytes(engine_id) + spec_be_bytes(step) + spec_be_bytes(
        content_hash,
    )
}

/// 64-bit FNV-1a over a byte sequence.
pub open spec fn spec_digest(s: Seq<u8>) -> u64
    decreases s.len(),
{
    if s.len() == 0 {
        DIGEST_BASIS
    } else {
        (spec_digest(s.drop_last()) ^ (s.last() as u64)).wrapping_mul(DIGEST_PRIME)
    }
}

/// The signature an authority places over a message digest: the signer's
/// address bound to the digest, with the signer recoverable by the verifier.
pub open spec fn spec_tag(signer: Address, digest: u64) -> u64 {
    signer.wrapping_add(digest)
}

/// The address that a signature claims as its author.
pub open spec fn spec_recover(signature: u64, digest: u64) -> Address {
    signature.wrapping_sub(digest)
}

/// A signature over a message digest names its signer: recovery inverts
/// tagging.
pub proof fn lemma_recover_tag(signer: Address, digest: u64)
    ensures
        spec_recover(spec_tag(signer, digest), digest) == signer,
{
}

/// Appends the eight big-endian bytes of `x`.
pub fn push_be_bytes(v: &mut Vec<u8>, x: u64)
    ensures
        final(v)@ == old(v)@ + spec_be_bytes(x),
{
    v.push((x >> 56) as u8);
    v.push((x >> 48) as u8);
    v.push((x >> 40) as u8);
    v.push((x >> 32) as u8);
    v.push((x >> 24) as u8);
    v.push((x >> 16) as u8);
    v.push((x >> 8) as u8);
    v.push(x as u8);
    proof {
        assert(v@ =~= old(v)@ + spec_be_bytes(x));
    }
}

/// Builds the canonical encoding that a block seal signs.
pub fn seal_message(engine_id: u64, step: u64, content_hash: u64) -> (r: Vec<u8>)
    ensures
        r@ == spec_seal_message(engine_id, step, content_hash),
{
    let mut v: Vec<u8> = Vec::new();
    v.push(SEAL_DOMAIN);
    push_be_bytes(&mut v, engine_id);
    push_be_bytes(&mut v, step);
    push_be_bytes(&mut v, content_hash);
    proof {
        assert(v@ =~= spec_seal_message(engine_id, step, content_hash));
    }
    v
}

/// Builds the canonical encoding that an empty-step attestation signs.
pub fn empty_step_message(engine_id: u64, step: u64, content_hash: u64) -> (r: Vec<u8>)
    ensures
        r@ == spec_empty_step_message(engine_id, step, content_hash),
{
    let mut v: Vec<u8> = Vec::new();
    v.push(EMPTY_STEP_DOMAIN);
    push_be_bytes(&mut v, engine_id);
    push_be_bytes(&mut v, step);
    push_be_bytes(&mut v, content_hash);
    proof {
        assert(v@ =~= spec_empty_step_message(engine_id, step, content_hash));
    }
    v
}

/// Computes the 64-bit FNV-1a digest of a byte string.
pub fn digest(s: &Vec<u8>) -> (r: u64)
    ensures
        r == spec_digest(s@),
{
    let mut h: u64 = DIGEST_BASIS;
    let n = s.len();
    let mut i: usize = 0;
    while i < n
        invariant
            0 <= i <= n,
            n == s@.len(),
            h == spec_digest(s@.take(i as int)),
        decreases n - i,
    {
        h = (h ^ (s[i] as u64)).wrapping_mul(DIGEST_PRIME);
        proof {
            assert(s@.take(i + 1).drop_last() =~= s@.take(i as int));
            assert(s@.take(i + 1).last() == s@[i as int]);
        }
        i = i + 1;
    }
    proof {
        assert(s@.take(n as int) =~= s@);
    }
    h
}

/// Signs a message with the signing key's address: the signature binds the
/// address to the message digest.
pub fn sign_message(signer: Address, message: &Vec<u8>) -> (r: u64)
    ensures
        r == spec_tag(signer, spec_digest(message@)),
{
    signer.wrapping_add(digest(message))
}

/// Recovers the address that signed a message.
pub fn recover_signer(signature: u64, message: &Vec<u8>) -> (r: Address)
    ensures
        r == spec_recover(signature, spec_digest(message@)),
{
    signature.wrapping_sub(digest(message))
}

/// Whether `proofs` is the correctly formed attestation run for the steps
/// skipped between a parent block at `parent_step` and a block at `step`:
/// one proof per skipped step, in order, each signed by `attester`.
pub open spec fn spec_proofs_ok(
    proofs: Seq<EmptyStepProof>,
    engine_id: u64,
    parent_step: u64,
    step: u64,
    content_hash: u64,
    attester: Address,
) -> bool {
    &&& proofs.len() == step - parent_step - 1
    &&& forall|i: int|
        0 <= i < proofs.len() ==> {
            &&& (#[trigger] proofs[i]).step == parent_step + 1 + i
            &&& spec_recover(
                proofs[i].signature,
                spec_digest(
                    spec_empty_step_message(engine_id, (parent_step + 1 + i) as u64, content_hash),
                ),
            ) == attester
        }
}

/// Checks an attestation run; returns exactly whether it is correctly
/// formed.
pub fn verify_empty_step_proofs(
    proofs: &Vec<EmptyStepProof>,
    engine_id: u64,
    parent_step: u64,
    step: u64,
    content_hash: u64,
    attester: Address,
) -> (r: bool)
    requires
        parent_step < step,
    ensures
        r == spec_proofs_ok(proofs@, engine_id, parent_step, step, content_hash, attester),
{
    let expected_len: u64 = step - parent_step - 1;
    if proofs.len() as u64 != expected_len {
        return false;
    }
    let n = proofs.len();
    let mut i: usize = 0;
    while i < n
        invariant
            0 <= i <= n,
            n == proofs@.len(),
            parent_step < step,
            n == step - parent_step - 1,
            forall|p: int|
                0 <= p < i ==> {
                    &&& (#[trigger] proofs@[p]).step == parent_step + 1 + p
                    &&& spec_recover(
                        proofs@[p].signature,
                        spec_digest(
                            spec_empty_step_message(
                                engine_id,
                                (parent_step + 1 + p) as u64,
                                content_hash,
                            ),
                        ),
                    ) == attester
                },
        decreases n - i,
    {
        let e: u64 = parent_step + 1 + (i as u64);
        if proofs[i].step != e {
            return false;
        }
        let message = empty_step_message(engine_id, e, content_hash);
        if recover_signer(proofs[i].signature, &message) != attester {
            return false;
        }
        i = i + 1;
    }
    true
}

/// Produces the attestation run that a proposer attaches for the steps
/// skipped since the parent block, each signed by that proposer.
pub fn make_empty_step_proofs(
    signer: Address,
    engine_id: u64,
    parent_step: u64,
    step: u64,
    content_hash: u64,
) -> (r: Vec<EmptyStepProof>)
    requires
        parent_step < step,
    ensures
        spec_proofs_ok(r@, engine_id, parent_step, step, content_hash, signer),
{
    let count: u64 = step - parent_step - 1;
    let mut proofs: Vec<EmptyStepProof> = Vec::new();
    let mut k: u64 = 0;
    while k < count
        invariant
            0 <= k <= count,
            count == step - parent_step - 1,
            parent_step < step,
            proofs@.len() == k,
            forall|p: int|
                0 <= p < k ==> {
                    &&& (#[trigger] proofs@[p]).step == parent_step + 1 + p
                    &&& spec_recover(
                        proofs@[p].signature,
                        spec_digest(
                            spec_empty_step_message(
                                engine_id,
                                (parent_step + 1 + p) as u64,
                                content_hash,
                            ),
                        ),
                    ) == signer
                },
        decreases count - k,
    {
        let e: u64 = parent_step + 1 + k;
        let message = empty_step_message(engine_id, e, content_hash);
        let signature = sign_message(signer, &message);
        proof {
            lemma_recover_tag(signer, spec_digest(message@));
        }
        proofs.push(EmptyStepProof { step: e, signature });
        k = k + 1;
    }
    proofs
}

} // verus!
