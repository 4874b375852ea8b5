use vstd::prelude::*;

verus! {

/// The key spaces of the chain store.
#[derive(Clone, Copy, Debug, PartialEq, Eq, Structural)]
pub enum DataCategory {
    State,
    Headers,
    Bodies,
    Extra,
    Trace,
    AccountBloom,
    Other,
}

/// Errors of the storage collaborator.
#[derive(Clone, Debug, PartialEq, Eq)]
pub enum DatabaseError {
    /// The addressed key space does not exist in the store.
    NotFound,
    /// The request itself is malformed, e.g. mismatched batch lengths.
    InvalidData,
    /// The store reported an internal fault, carried as text.
    Internal(String),
}

/// The store's model: a map from key space and key to the stored bytes.
pub type StoreModel = Map<(DataCategory, Seq<u8>), Seq<u8>>;

/// The model after writing each key/value pair in order; a later pair with
/// the same key wins.
pub open spec fn spec_insert_all(
    m: StoreModel,
    category: DataCategory,
    keys: Seq<Seq<u8>>,
    values: Seq<Seq<u8>>,
) -> StoreModel
    decreases keys.len(),
{
    if keys.len() == 0 || values.len() == 0 {
        m
    } else {
        spec_insert_all(
            m.insert((category, keys[0]), values[0]),
            category,
            keys.drop_first(),
            values.drop_first(),
        )
    }
}

/// The model after removing each key in order.
pub open spec fn spec_remove_all(m: StoreModel, category: DataCategory, keys: Seq<Seq<u8>>) -> StoreModel
    decreases keys.len(),
{
    if keys.len() == 0 {
        m
    } else {
        spec_remove_all(m.remove((category, keys[0])), category, keys.drop_first())
    }
}

/// Byte-for-byte comparison of two buffers.
pub fn bytes_eq(a: &Vec<u8>, b: &Vec<u8>) -> (r: bool)
    ensures
        r == (a@ == b@),
{
    if a.len() != b.len() {
        proof {
            assert(a@.len() != b@.len());
        }
        return false;
    }
    let n = a.len();
    let mut i: usize = 0;
    while i < n
        invariant
            0 <= i <= n,
            n == a@.len(),
            n == b@.len(),
            forall|p: int| 0 <= p < i ==> a@[p] == b@[p],
        decreases n - i,
    {
        if a[i] != b[i] {
            return false;
        }
        i = i + 1;
    }
    proof {
        assert(a@ =~= b@);
    }
    true
}

/// A narrow key-value read/write capability.  The engine consumes storage
/// only through this contract; the backing store fulfils it.  A backend may
/// fail on any operation (`Err` leaves nothing promised about its state),
/// but whatever it returns must be truthful about its model.
pub trait Database: Sized {
    /// The stored bytes, by key space and key.
    spec fn contents(&self) -> StoreModel;

    /// Reads the value stored under `key`, or `None` if there is none.
    fn get(&self, category: DataCategory, key: &[u8]) -> (r: Result<
        Option<Vec<u8>>,
        DatabaseError,
    >)
        ensures
            match r {
                Ok(Some(v)) => self.contents().contains_key((category, key@)) && v@
                    == self.contents()[(category, key@)],
                Ok(None) => !self.contents().contains_key((category, key@)),
                Err(_) => true,
            },
    ;

    /// Reads each key of `keys`, in order.
    fn get_batch(&self, category: DataCategory, keys: &[Vec<u8>]) -> (r: Result<
        Vec<Option<Vec<u8>>>,
        DatabaseError,
    >)
        ensures
            match r {
                Ok(vs) => {
                    &&& vs@.len() == keys@.len()
                    &&& forall|i: int|
                        0 <= i < keys@.len() ==> match #[trigger] vs@[i] {
                            Some(v) => self.contents().contains_key((category, keys@[i]@)) && v@
                                == self.contents()[(category, keys@[i]@)],
                            None => !self.contents().contains_key((category, keys@[i]@)),
                        }
                },
                Err(_) => true,
            },
    ;

    /// Stores `value` under `key`.
    fn insert(&mut self, category: DataCategory, key: Vec<u8>, value: Vec<u8>) -> (r: Result<
        (),
        DatabaseError,
    >)
        ensures
            match r {
                Ok(()) => final(self).contents() == old(self).contents().insert(
                    (category, key@),
                    value@,
                ),
                Err(_) => true,
            },
    ;

    /// Stores each pair of `keys` and `values` in order.  Mismatched
    /// lengths are a malformed request and leave the store untouched.
    fn insert_batch(&mut self, category: DataCategory, keys: Vec<Vec<u8>>, values: Vec<Vec<u8>>)
        -> (r: Result<(), DatabaseError>)
        ensures
            keys@.len() != values@.len() ==> (r matches Err(DatabaseError::InvalidData))
                && *final(self) == *old(self),
            match r {
                Ok(()) => keys@.len() == values@.len() && final(self).contents() == spec_insert_all(
                    old(self).contents(),
                    category,
                    keys@.map_values(|k: Vec<u8>| k@),
                    values@.map_values(|v: Vec<u8>| v@),
                ),
                Err(_) => true,
            },
    ;

    /// Whether some value is stored under `key`.
    fn contains(&self, category: DataCategory, key: &[u8]) -> (r: Result<bool, DatabaseError>)
        ensures
            match r {
                Ok(b) => b == self.contents().contains_key((category, key@)),
                Err(_) => true,
            },
    ;

    /// Removes whatever is stored under `key`.
    fn remove(&mut self, category: DataCategory, key: &[u8]) -> (r: Result<(), DatabaseError>)
        ensures
            match r {
                Ok(()) => final(self).contents() == old(self).contents().remove((category, key@)),
                Err(_) => true,
            },
    ;

    /// Removes each key of `keys`, in order.
    fn remove_batch(&mut self, category: DataCategory, keys: &[Vec<u8>]) -> (r: Result<
        (),
        DatabaseError,
    >)
        ensures
            match r {
                Ok(()) => final(self).contents() == spec_remove_all(
                    old(self).contents(),
                    category,
                    keys@.map_values(|k: Vec<u8>| k@),
                ),
                Err(_) => true,
            },
    ;
}

} // verus!
