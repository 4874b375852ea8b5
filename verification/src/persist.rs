use vstd::prelude::*;
use crate::Address;
use crate::database::DataCategory;
use crate::database::Database;
use crate::database::DatabaseError;
use crate::seal::spec_be_bytes;
use crate::seal::push_be_bytes;

verus! {

/// The big-endian reading of eight bytes.
pub open spec fn spec_u64_of_be(b: Seq<u8>) -> u64
    recommends
        b.len() == 8,
{
    ((b[0] as u64) << 56) | ((b[1] as u64) << 48) | ((b[2] as u64) << 40) | ((b[3] as u64) << 32)
        | ((b[4] as u64) << 24) | ((b[5] as u64) << 16) | ((b[6] as u64) << 8) | (b[7] as u64)
}

/// Reading back the eight big-endian bytes of `x` yields `x`.
pub proof fn lemma_be_roundtrip(x: u64)
    ensures
        spec_u64_of_be(spec_be_bytes(x)) == x,
{
    assert((((x >> 56) as u8 as u64) << 56) | (((x >> 48) as u8 as u64) << 48) | (((x >> 40) as u8
        as u64) << 40) | (((x >> 32) as u8 as u64) << 32) | (((x >> 24) as u8 as u64) << 24) | (((x
        >> 16) as u8 as u64) << 16) | (((x >> 8) as u8 as u64) << 8) | (x as u8 as u64) == x)
        by (bit_vector);
}

/// The addresses of a validator list, each as eight big-endian bytes.
pub open spec fn spec_encode_addrs(s: Seq<Address>) -> Seq<u8>
    decreases s.len(),
{
    if s.len() == 0 {
        Seq::empty()
    } else {
        spec_be_bytes(s[0]) + spec_encode_addrs(s.drop_first())
    }
}

/// The stored form of a validator list: the member count, then each
/// address, all big-endian.
pub open spec fn spec_encode_validators(s: Seq<Address>) -> Seq<u8> {
    spec_be_bytes(s.len() as u64) + spec_encode_addrs(s)
}

/// Each address contributes eight bytes.
pub proof fn lemma_encode_addrs_len(s: Seq<Address>)
    ensures
        spec_encode_addrs(s).len() == 8 * s.len(),
    decreases s.len(),
{
    if s.len() > 0 {
        lemma_encode_addrs_len(s.drop_first());
    }
}

/// Appending one address appends its eight bytes.
proof fn lemma_encode_addrs_push(s: Seq<Address>, a: Address)
    ensures
        spec_encode_addrs(s.push(a)) == spec_encode_addrs(s) + spec_be_bytes(a),
    decreases s.len(),
{
    if s.len() == 0 {
        assert(s.push(a)[0] == a);
        assert(s.push(a).drop_first() =~= s);
        assert(spec_encode_addrs(s.push(a)) == spec_be_bytes(a) + spec_encode_addrs(s));
        assert(spec_be_bytes(a) + spec_encode_addrs(s) =~= spec_encode_addrs(s) + spec_be_bytes(
            a,
        ));
    } else {
        assert(s.push(a)[0] == s[0]);
        assert(s.push(a).drop_first() =~= s.drop_first().push(a));
        lemma_encode_addrs_push(s.drop_first(), a);
        assert(spec_be_bytes(s[0]) + (spec_encode_addrs(s.drop_first()) + spec_be_bytes(a))
            =~= (spec_be_bytes(s[0]) + spec_encode_addrs(s.drop_first())) + spec_be_bytes(a));
    }
}

/// The bytes of the `p`-th address inside an encoded list.
proof fn lemma_encode_addrs_chunk(s: Seq<Address>, p: int)
    requires
        0 <= p < s.len(),
    ensures
        spec_encode_addrs(s).subrange(8 * p, 8 * p + 8) =~= spec_be_bytes(s[p]),
    decreases s.len(),
{
    lemma_encode_addrs_len(s.drop_first());
    if p == 0 {
        assert(spec_encode_addrs(s).subrange(0, 8) =~= spec_be_bytes(s[0]));
    } else {
        lemma_encode_addrs_chunk(s.drop_first(), p - 1);
        assert(spec_encode_addrs(s).subrange(8 * p, 8 * p + 8) =~= spec_encode_addrs(
            s.drop_first(),
        ).subrange(8 * (p - 1), 8 * (p - 1) + 8));
    }
}

/// Two different validator lists never share a stored form.
pub proof fn lemma_encode_injective(s1: Seq<Address>, s2: Seq<Address>)
    requires
        spec_encode_validators(s1) == spec_encode_validators(s2),
    ensures
        s1 == s2,
{
    lemma_encode_addrs_len(s1);
    lemma_encode_addrs_len(s2);
    assert(spec_encode_validators(s1).len() == 8 + 8 * s1.len());
    assert(spec_encode_validators(s2).len() == 8 + 8 * s2.len());
    assert(s1.len() == s2.len());
    assert forall|p: int| 0 <= p < s1.len() implies s1[p] == s2[p] by {
        lemma_encode_addrs_chunk(s1, p);
        lemma_encode_addrs_chunk(s2, p);
        assert(spec_encode_addrs(s1) =~= spec_encode_validators(s1).subrange(
            8,
            spec_encode_validators(s1).len() as int,
        ));
        assert(spec_encode_addrs(s2) =~= spec_encode_validators(s2).subrange(
            8,
            spec_encode_validators(s2).len() as int,
        ));
        lemma_be_roundtrip(s1[p]);
        lemma_be_roundtrip(s2[p]);
        assert(spec_be_bytes(s1[p]) =~= spec_be_bytes(s2[p]));
        assert(spec_u64_of_be(spec_be_bytes(s1[p])) == spec_u64_of_be(spec_be_bytes(s2[p])));
    }
    assert(s1 =~= s2);
}

/// Reads eight big-endian bytes at `off`.
fn read_be(bytes: &Vec<u8>, off: usize) -> (r: u64)
    requires
        off + 8 <= bytes@.len(),
    ensures
        r == spec_u64_of_be(bytes@.subrange(off as int, off as int + 8)),
{
    let n = bytes.len();
    proof {
        assert(off + 8 <= n);
    }
    let r = ((bytes[off] as u64) << 56) | ((bytes[off + 1] as u64) << 48) | ((bytes[off + 2] as u64)
        << 40) | ((bytes[off + 3] as u64) << 32) | ((bytes[off + 4] as u64) << 24) | ((bytes[off
        + 5] as u64) << 16) | ((bytes[off + 6] as u64) << 8) | (bytes[off + 7] as u64);
    proof {
        let b = bytes@.subrange(off as int, off as int + 8);
        assert(b[0] == bytes@[off as int]);
        assert(b[1] == bytes@[off as int + 1]);
        assert(b[2] == bytes@[off as int + 2]);
        assert(b[3] == bytes@[off as int + 3]);
        assert(b[4] == bytes@[off as int + 4]);
        assert(b[5] == bytes@[off as int + 5]);
        assert(b[6] == bytes@[off as int + 6]);
        assert(b[7] == bytes@[off as int + 7]);
    }
    r
}

/// Produces the stored form of a validator list.
pub fn encode_validators(validators: &Vec<Address>) -> (r: Vec<u8>)
    ensures
        r@ == spec_encode_validators(validators@),
{
    let mut out: Vec<u8> = Vec::new();
    push_be_bytes(&mut out, validators.len() as u64);
    let n = validators.len();
    let mut i: usize = 0;
    while i < n
        invariant
            0 <= i <= n,
            n == validators@.len(),
            out@ == spec_be_bytes(n as u64) + spec_encode_addrs(validators@.take(i as int)),
        decreases n - i,
    {
        push_be_bytes(&mut out, validators[i]);
        proof {
            lemma_encode_addrs_push(validators@.take(i as int), validators@[i as int]);
            assert(validators@.take(i as int).push(validators@[i as int]) =~= validators@.take(
                i + 1,
            ));
            assert((spec_be_bytes(n as u64) + spec_encode_addrs(validators@.take(i as int)))
                + spec_be_bytes(validators@[i as int]) =~= spec_be_bytes(n as u64)
                + (spec_encode_addrs(validators@.take(i as int)) + spec_be_bytes(
                validators@[i as int],
            )));
        }
        i = i + 1;
    }
    proof {
        assert(validators@.take(n as int) =~= validators@);
    }
    out
}

/// Parses a stored validator list.  Returns the list exactly when the bytes
/// are the stored form of one, and nothing otherwise.
pub fn decode_validators(bytes: &Vec<u8>) -> (r: Option<Vec<Address>>)
    ensures
        match r {
            Some(v) => bytes@ == spec_encode_validators(v@),
            None => forall|s: Seq<Address>| bytes@ != spec_encode_validators(s),
        },
{
    proof {
        assert forall|s: Seq<Address>| (#[trigger] spec_encode_validators(s)).len() == 8 + 8
            * s.len() by {
            lemma_encode_addrs_len(s);
        }
    }
    if bytes.len() < 8 {
        return None;
    }
    let count = read_be(bytes, 0);
    let rest: u64 = (bytes.len() - 8) as u64;
    if rest % 8 != 0 || rest / 8 != count {
        proof {
            assert forall|s: Seq<Address>| bytes@ != spec_encode_validators(s) by {
                if bytes@ == spec_encode_validators(s) {
                    assert(bytes@.subrange(0, 8) =~= spec_be_bytes(s.len() as u64));
                    lemma_be_roundtrip(s.len() as u64);
                }
            }
        }
        return None;
    }
    let n = (bytes.len() - 8) / 8;
    let mut out: Vec<Address> = Vec::new();
    let mut i: usize = 0;
    while i < n
        invariant
            0 <= i <= n,
            8 + 8 * n == bytes@.len(),
            bytes@.len() <= usize::MAX,
            out@.len() == i,
            forall|p: int|
                0 <= p < i ==> out@[p] == spec_u64_of_be(
                    #[trigger] bytes@.subrange(8 + 8 * p, 8 + 8 * p + 8),
                ),
        decreases n - i,
    {
        let a = read_be(bytes, 8 + 8 * i);
        out.push(a);
        i = i + 1;
    }
    let reencoded = encode_validators(&out);
    if crate::database::bytes_eq(bytes, &reencoded) {
        Some(out)
    } else {
        proof {
            assert forall|s: Seq<Address>| bytes@ != spec_encode_validators(s) by {
                if bytes@ == spec_encode_validators(s) {
                    assert(bytes@.subrange(0, 8) =~= spec_be_bytes(s.len() as u64));
                    lemma_be_roundtrip(s.len() as u64);
                    assert(s.len() == n);
                    assert forall|p: int| 0 <= p < s.len() implies s[p] == out@[p] by {
                        lemma_encode_addrs_chunk(s, p);
                        lemma_encode_addrs_len(s);
                        assert(spec_encode_addrs(s) =~= bytes@.subrange(8, bytes@.len() as int));
                        assert(spec_encode_addrs(s).subrange(8 * p, 8 * p + 8) =~= bytes@.subrange(
                            8 + 8 * p,
                            8 + 8 * p + 8,
                        ));
                        lemma_be_roundtrip(s[p]);
                        assert(out@[p] == spec_u64_of_be(bytes@.subrange(8 + 8 * p, 8 + 8 * p + 8)));
                    }
                    assert(s =~= out@);
                    assert(bytes@ == spec_encode_validators(out@));
                }
            }
        }
        None
    }
}

/// The store key of an epoch transition: its effective height.
pub open spec fn spec_transition_key(effective_height: u64) -> Seq<u8> {
    spec_be_bytes(effective_height)
}

/// Persists an epoch transition: the validator list effective at
/// `effective_height`, keyed by that height, in the `Extra` key space.
pub fn store_transition<D: Database>(
    db: &mut D,
    effective_height: u64,
    validators: &Vec<Address>,
) -> (r: Result<(), DatabaseError>)
    ensures
        match r {
            Ok(()) => final(db).contents() == old(db).contents().insert(
                (DataCategory::Extra, spec_transition_key(effective_height)),
                spec_encode_validators(validators@),
            ),
            Err(_) => true,
        },
{
    let mut key: Vec<u8> = Vec::new();
    push_be_bytes(&mut key, effective_height);
    proof {
        assert(key@ =~= spec_be_bytes(effective_height));
    }
    let value = encode_validators(validators);
    db.insert(DataCategory::Extra, key, value)
}

/// Loads the validator list persisted for `effective_height`, if one is
/// stored there in valid form.
pub fn load_transition<D: Database>(db: &D, effective_height: u64) -> (r: Result<
    Option<Vec<Address>>,
    DatabaseError,
>)
    ensures
        match r {
            Ok(Some(v)) => db.contents().contains_key(
                (DataCategory::Extra, spec_transition_key(effective_height)),
            ) && db.contents()[(DataCategory::Extra, spec_transition_key(effective_height))]
                == spec_encode_validators(v@),
            Ok(None) => !db.contents().contains_key(
                (DataCategory::Extra, spec_transition_key(effective_height)),
            ) || (forall|s: Seq<Address>|
                db.contents()[(DataCategory::Extra, spec_transition_key(effective_height))]
                    != spec_encode_validators(s)),
            Err(_) => true,
        },
{
    let mut key: Vec<u8> = Vec::new();
    push_be_bytes(&mut key, effective_height);
    proof {
        assert(key@ =~= spec_be_bytes(effective_height));
    }
    match db.get(DataCategory::Extra, key.as_slice()) {
        Ok(Some(bytes)) => Ok(decode_validators(&bytes)),
        Ok(None) => Ok(None),
        Err(e) => Err(e),
    }
}

} // verus!
