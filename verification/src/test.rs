use vstd::prelude::*;
use crate::database::DataCategory;
use crate::database::Database;
use crate::database::DatabaseError;
use crate::database::bytes_eq;
use crate::database::spec_insert_all;
use crate::database::spec_remove_all;

verus! {

/// The bytes of the probe key `test`.
fn probe_data() -> (r: Vec<u8>)
    ensures
        r@ == probe_seq(),
{
    let mut v: Vec<u8> = Vec::new();
    v.push(116);
    v.push(101);
    v.push(115);
    v.push(116);
    proof {
        assert(v@ =~= probe_seq());
    }
    v
}

/// The byte sequence of `test`.
pub open spec fn probe_seq() -> Seq<u8> {
    seq![116u8, 101u8, 115u8, 116u8]
}

/// The byte sequence of `test` followed by one decimal digit.
pub open spec fn probe_seq_n(digit: u8) -> Seq<u8> {
    seq![116u8, 101u8, 115u8, 116u8, digit]
}

/// The bytes of the probe key `test` followed by one digit.
fn probe_data_n(digit: u8) -> (r: Vec<u8>)
    ensures
        r@ == probe_seq_n(digit),
{
    let mut v = probe_data();
    v.push(digit);
    proof {
        assert(v@ =~= probe_seq_n(digit));
    }
    v
}

/// Reads a key from the `State` key space.
fn get_value<D: Database>(db: &D, key: &[u8]) -> (r: Result<Option<Vec<u8>>, DatabaseError>)
    ensures
        match r {
            Ok(Some(v)) => db.contents().contains_key((DataCategory::State, key@)) && v@
                == db.contents()[(DataCategory::State, key@)],
            Ok(None) => !db.contents().contains_key((DataCategory::State, key@)),
            Err(_) => true,
        },
{
    let value = db.get(DataCategory::State, key)?;
    Ok(value)
}

/// Exercises reading: the probe key must start absent, then read back
/// exactly as inserted.  True iff every step behaved as the storage
/// contract owes.
pub fn get<D: Database>(db: &mut D) -> (r: bool)
    ensures
        r ==> !old(db).contents().contains_key((DataCategory::State, probe_seq())),
        r ==> final(db).contents() == old(db).contents().insert(
            (DataCategory::State, probe_seq()),
            probe_seq(),
        ),
{
    let data = probe_data();
    let absent = match get_value(db, data.as_slice()) {
        Ok(None) => true,
        _ => false,
    };
    if !absent {
        return false;
    }
    let key = probe_data();
    let value = probe_data();
    if db.insert(DataCategory::State, key, value).is_err() {
        return false;
    }
    match get_value(db, data.as_slice()) {
        Ok(Some(read)) => bytes_eq(&read, &data),
        _ => false,
    }
}

/// Exercises a single write: the probe value must read back after it.
pub fn insert<D: Database>(db: &mut D) -> (r: bool)
    ensures
        r ==> final(db).contents() == old(db).contents().insert(
            (DataCategory::State, probe_seq()),
            probe_seq(),
        ),
{
    let data = probe_data();
    let key = probe_data();
    let value = probe_data();
    if db.insert(DataCategory::State, key, value).is_err() {
        return false;
    }
    match get_value(db, data.as_slice()) {
        Ok(Some(read)) => bytes_eq(&read, &data),
        _ => false,
    }
}

/// Exercises batched writes: both pairs must read back, and a batch whose
/// key and value counts differ must be refused as malformed.
pub fn insert_batch<D: Database>(db: &mut D) -> (r: bool)
    ensures
        r ==> final(db).contents() == spec_insert_all(
            old(db).contents(),
            DataCategory::State,
            seq![probe_seq_n(49), probe_seq_n(50)],
            seq![probe_seq_n(49), probe_seq_n(50)],
        ),
{
    let data1 = probe_data_n(49);
    let data2 = probe_data_n(50);

    let mut keys: Vec<Vec<u8>> = Vec::new();
    keys.push(probe_data_n(49));
    keys.push(probe_data_n(50));
    let mut values: Vec<Vec<u8>> = Vec::new();
    values.push(probe_data_n(49));
    values.push(probe_data_n(50));
    proof {
        assert(keys@.map_values(|k: Vec<u8>| k@) =~= seq![probe_seq_n(49), probe_seq_n(50)]);
        assert(values@.map_values(|v: Vec<u8>| v@) =~= seq![probe_seq_n(49), probe_seq_n(50)]);
    }
    if db.insert_batch(DataCategory::State, keys, values).is_err() {
        return false;
    }

    let ok1 = match get_value(db, data1.as_slice()) {
        Ok(Some(read)) => bytes_eq(&read, &data1),
        _ => false,
    };
    let ok2 = match get_value(db, data2.as_slice()) {
        Ok(Some(read)) => bytes_eq(&read, &data2),
        _ => false,
    };
    if !(ok1 && ok2) {
        return false;
    }

    // A batch with a key but no value is malformed.
    let mut bad_keys: Vec<Vec<u8>> = Vec::new();
    bad_keys.push(probe_data_n(51));
    let bad_values: Vec<Vec<u8>> = Vec::new();
    match db.insert_batch(DataCategory::State, bad_keys, bad_values) {
        Err(DatabaseError::InvalidData) => true,
        _ => false,
    }
}

/// Exercises membership: an inserted key is contained, a never-written key
/// is not.
pub fn contains<D: Database>(db: &mut D) -> (r: bool)
    ensures
        r ==> final(db).contents() == old(db).contents().insert(
            (DataCategory::State, probe_seq()),
            probe_seq(),
        ),
        r ==> !old(db).contents().contains_key((DataCategory::State, absent_seq())),
{
    let data = probe_data();
    let key = probe_data();
    let value = probe_data();
    if db.insert(DataCategory::State, key, value).is_err() {
        return false;
    }
    let present = match db.contains(DataCategory::State, data.as_slice()) {
        Ok(b) => b,
        Err(_) => false,
    };
    if !present {
        return false;
    }
    let none_exist = absent_data();
    match db.contains(DataCategory::State, none_exist.as_slice()) {
        Ok(b) => !b,
        Err(_) => false,
    }
}

/// The byte sequence of `none_exist`.
pub open spec fn absent_seq() -> Seq<u8> {
    seq![110u8, 111u8, 110u8, 101u8, 95u8, 101u8, 120u8, 105u8, 115u8, 116u8]
}

/// The bytes of the never-written key `none_exist`.
fn absent_data() -> (r: Vec<u8>)
    ensures
        r@ == absent_seq(),
{
    let mut v: Vec<u8> = Vec::new();
    v.push(110);
    v.push(111);
    v.push(110);
    v.push(101);
    v.push(95);
    v.push(101);
    v.push(120);
    v.push(105);
    v.push(115);
    v.push(116);
    proof {
        assert(v@ =~= absent_seq());
    }
    v
}

/// Exercises removal: after inserting and removing the probe key, it must
/// be gone.
pub fn remove<D: Database>(db: &mut D) -> (r: bool)
    ensures
        r ==> final(db).contents() == old(db).contents().insert(
            (DataCategory::State, probe_seq()),
            probe_seq(),
        ).remove((DataCategory::State, probe_seq())),
{
    let data = probe_data();
    let key = probe_data();
    let value = probe_data();
    if db.insert(DataCategory::State, key, value).is_err() {
        return false;
    }
    if db.remove(DataCategory::State, data.as_slice()).is_err() {
        return false;
    }
    match get_value(db, data.as_slice()) {
        Ok(None) => true,
        _ => false,
    }
}

/// Exercises batched removal: both inserted keys must be gone afterwards.
pub fn remove_batch<D: Database>(db: &mut D) -> (r: bool)
    ensures
        r ==> final(db).contents() == spec_remove_all(
            spec_insert_all(
                old(db).contents(),
                DataCategory::State,
                seq![probe_seq_n(49), probe_seq_n(50)],
                seq![probe_seq_n(49), probe_seq_n(50)],
            ),
            DataCategory::State,
            seq![probe_seq_n(49), probe_seq_n(50)],
        ),
{
    let data1 = probe_data_n(49);
    let data2 = probe_data_n(50);

    let mut keys: Vec<Vec<u8>> = Vec::new();
    keys.push(probe_data_n(49));
    keys.push(probe_data_n(50));
    let mut values: Vec<Vec<u8>> = Vec::new();
    values.push(probe_data_n(49));
    values.push(probe_data_n(50));
    proof {
        assert(keys@.map_values(|k: Vec<u8>| k@) =~= seq![probe_seq_n(49), probe_seq_n(50)]);
        assert(values@.map_values(|v: Vec<u8>| v@) =~= seq![probe_seq_n(49), probe_seq_n(50)]);
    }
    if db.insert_batch(DataCategory::State, keys, values).is_err() {
        return false;
    }

    let mut gone: Vec<Vec<u8>> = Vec::new();
    gone.push(probe_data_n(49));
    gone.push(probe_data_n(50));
    proof {
        assert(gone@.map_values(|k: Vec<u8>| k@) =~= seq![probe_seq_n(49), probe_seq_n(50)]);
    }
    if db.remove_batch(DataCategory::State, gone.as_slice()).is_err() {
        return false;
    }

    let gone1 = match get_value(db, data1.as_slice()) {
        Ok(None) => true,
        _ => false,
    };
    let gone2 = match get_value(db, data2.as_slice()) {
        Ok(None) => true,
        _ => false,
    };
    gone1 && gone2
}

} // verus!
