use vstd::prelude::*;
use crate::config::Config;
use crate::database::DataCategory;
use crate::database::Database;
use crate::database::DatabaseError;
use crate::database::StoreModel;
use crate::database::spec_insert_all;
use crate::database::spec_remove_all;

verus! {

/// One stored binding: a key space, a key, and the bytes under it.
struct Entry {
    category: DataCategory,
    key: Vec<u8>,
    value: Vec<u8>,
}

/// The chain store, partitioned into one column per key space.  This build
/// keeps the columns in process memory; the `path` identifies the store to
/// its callers.
pub struct RocksDB {
    entries: Vec<Entry>,
    pub categorys: Vec<DataCategory>,
    pub config: Config,
}

/// Every key space, in the column order the store keeps.
pub open spec fn spec_all_categories() -> Seq<DataCategory> {
    seq![
        DataCategory::State,
        DataCategory::Headers,
        DataCategory::Bodies,
        DataCategory::Extra,
        DataCategory::Trace,
        DataCategory::AccountBloom,
        DataCategory::Other,
    ]
}

/// No two entries bind the same key of the same key space.
spec fn entries_distinct(s: Seq<Entry>) -> bool {
    forall|i: int, j: int|
        0 <= i < j < s.len() ==> !((#[trigger] s[i]).category == (#[trigger] s[j]).category
            && s[i].key@ == s[j].key@)
}

/// The map a run of entries denotes; later entries win.
spec fn entries_model(s: Seq<Entry>) -> StoreModel
    decreases s.len(),
{
    if s.len() == 0 {
        Map::empty()
    } else {
        entries_model(s.drop_last()).insert(
            (s.last().category, s.last().key@),
            s.last().value@,
        )
    }
}

/// A key is in the model exactly when some entry binds it.
proof fn lemma_model_dom(s: Seq<Entry>, c: DataCategory, kk: Seq<u8>)
    ensures
        entries_model(s).contains_key((c, kk)) == (exists|i: int|
            0 <= i < s.len() && (#[trigger] s[i]).category == c && s[i].key@ == kk),
    decreases s.len(),
{
    if s.len() > 0 {
        lemma_model_dom(s.drop_last(), c, kk);
        if s.last().category == c && s.last().key@ == kk {
            assert((#[trigger] s[s.len() - 1]).category == c && s[s.len() - 1].key@ == kk);
        } else {
            if exists|i: int| 0 <= i < s.len() && (#[trigger] s[i]).category == c && s[i].key@
                == kk {
                let i = choose|i: int|
                    0 <= i < s.len() && (#[trigger] s[i]).category == c && s[i].key@ == kk;
                assert(i < s.len() - 1);
                assert(s.drop_last()[i] == s[i]);
            }
            if exists|i: int|
                0 <= i < s.drop_last().len() && (#[trigger] s.drop_last()[i]).category == c
                    && s.drop_last()[i].key@ == kk {
                let i = choose|i: int|
                    0 <= i < s.drop_last().len() && (#[trigger] s.drop_last()[i]).category == c
                        && s.drop_last()[i].key@ == kk;
                assert(s[i] == s.drop_last()[i]);
            }
        }
    }
}

/// With distinct entries, the model maps each entry's key to its value.
proof fn lemma_model_at(s: Seq<Entry>, i: int)
    requires
        entries_distinct(s),
        0 <= i < s.len(),
    ensures
        entries_model(s).contains_key((s[i].category, s[i].key@)),
        entries_model(s)[(s[i].category, s[i].key@)] == s[i].value@,
    decreases s.len(),
{
    if i < s.len() - 1 {
        assert(entries_distinct(s.drop_last())) by {
            assert(forall|p: int, q: int|
                0 <= p < q < s.drop_last().len() ==> s.drop_last()[p] == s[p] && s.drop_last()[q]
                    == s[q]);
        }
        lemma_model_at(s.drop_last(), i);
        assert(s.drop_last()[i] == s[i]);
        assert(!(s.last().category == s[i].category && s.last().key@ == s[i].key@));
    }
}

/// Removing the entry that binds a key removes exactly that key from the
/// model.
proof fn lemma_model_remove(s: Seq<Entry>, i: int)
    requires
        entries_distinct(s),
        0 <= i < s.len(),
    ensures
        entries_model(s.remove(i)) == entries_model(s).remove((s[i].category, s[i].key@)),
    decreases s.len(),
{
    let k = (s[i].category, s[i].key@);
    if i == s.len() - 1 {
        assert(s.remove(i) =~= s.drop_last());
        lemma_model_dom(s.drop_last(), s[i].category, s[i].key@);
        assert(forall|p: int|
            0 <= p < s.drop_last().len() ==> s.drop_last()[p] == s[p]);
        assert(!entries_model(s.drop_last()).contains_key(k));
        assert(entries_model(s.drop_last()).insert(k, s[i].value@).remove(k) =~= entries_model(
            s.drop_last(),
        ));
    } else {
        assert(entries_distinct(s.drop_last())) by {
            assert(forall|p: int, q: int|
                0 <= p < q < s.drop_last().len() ==> s.drop_last()[p] == s[p] && s.drop_last()[q]
                    == s[q]);
        }
        lemma_model_remove(s.drop_last(), i);
        assert(s.remove(i).drop_last() =~= s.drop_last().remove(i));
        assert(s.remove(i).last() == s.last());
        let klast = (s.last().category, s.last().key@);
        assert(!(s.last().category == s[i].category && s.last().key@ == s[i].key@));
        assert(entries_model(s.remove(i)) == entries_model(s.drop_last().remove(i)).insert(
            klast,
            s.last().value@,
        ));
        assert(entries_model(s.drop_last()).remove(k).insert(klast, s.last().value@)
            =~= entries_model(s.drop_last()).insert(klast, s.last().value@).remove(k));
    }
}

/// Writing one more pair is one more model insertion.
proof fn lemma_insert_all_push(
    m: StoreModel,
    c: DataCategory,
    ks: Seq<Seq<u8>>,
    vs: Seq<Seq<u8>>,
    k: Seq<u8>,
    v: Seq<u8>,
)
    requires
        ks.len() == vs.len(),
    ensures
        spec_insert_all(m, c, ks.push(k), vs.push(v)) == spec_insert_all(m, c, ks, vs).insert(
            (c, k),
            v,
        ),
    decreases ks.len(),
{
    if ks.len() == 0 {
        assert(ks.push(k)[0] == k);
        assert(vs.push(v)[0] == v);
        assert(ks.push(k).drop_first() =~= ks);
        assert(vs.push(v).drop_first() =~= vs);
        assert(spec_insert_all(m, c, ks.push(k), vs.push(v)) == spec_insert_all(
            m.insert((c, k), v),
            c,
            ks,
            vs,
        ));
    } else {
        assert(ks.push(k)[0] == ks[0]);
        assert(vs.push(v)[0] == vs[0]);
        assert(ks.push(k).drop_first() =~= ks.drop_first().push(k));
        assert(vs.push(v).drop_first() =~= vs.drop_first().push(v));
        lemma_insert_all_push(m.insert((c, ks[0]), vs[0]), c, ks.drop_first(), vs.drop_first(), k, v);
        assert(spec_insert_all(m, c, ks.push(k), vs.push(v)) == spec_insert_all(
            m.insert((c, ks[0]), vs[0]),
            c,
            ks.drop_first().push(k),
            vs.drop_first().push(v),
        ));
        assert(spec_insert_all(m, c, ks, vs) == spec_insert_all(
            m.insert((c, ks[0]), vs[0]),
            c,
            ks.drop_first(),
            vs.drop_first(),
        ));
    }
}

/// Removing one more key is one more model removal.
proof fn lemma_remove_all_push(m: StoreModel, c: DataCategory, ks: Seq<Seq<u8>>, k: Seq<u8>)
    ensures
        spec_remove_all(m, c, ks.push(k)) == spec_remove_all(m, c, ks).remove((c, k)),
    decreases ks.len(),
{
    if ks.len() == 0 {
        assert(ks.push(k)[0] == k);
        assert(ks.push(k).drop_first() =~= ks);
        assert(spec_remove_all(m, c, ks.push(k)) == spec_remove_all(m.remove((c, k)), c, ks));
    } else {
        assert(ks.push(k)[0] == ks[0]);
        assert(ks.push(k).drop_first() =~= ks.drop_first().push(k));
        lemma_remove_all_push(m.remove((c, ks[0])), c, ks.drop_first(), k);
        assert(spec_remove_all(m, c, ks.push(k)) == spec_remove_all(
            m.remove((c, ks[0])),
            c,
            ks.drop_first().push(k),
        ));
        assert(spec_remove_all(m, c, ks) == spec_remove_all(
            m.remove((c, ks[0])),
            c,
            ks.drop_first(),
        ));
    }
}

/// An owned copy of a byte buffer.
fn copy_bytes(v: &Vec<u8>) -> (r: Vec<u8>)
    ensures
        r@ == v@,
{
    let mut out: Vec<u8> = Vec::new();
    let n = v.len();
    let mut i: usize = 0;
    while i < n
        invariant
            0 <= i <= n,
            n == v@.len(),
            out@ == v@.take(i as int),
        decreases n - i,
    {
        out.push(v[i]);
        proof {
            assert(out@ =~= v@.take(i + 1));
        }
        i = i + 1;
    }
    proof {
        assert(v@.take(n as int) =~= v@);
    }
    out
}

impl RocksDB {
    #[verifier::type_invariant]
    spec fn inv(self) -> bool {
        entries_distinct(self.entries@)
    }

    /// The configuration the store was opened with.
    pub closed spec fn spec_config(self) -> Config {
        self.config
    }

    /// The key spaces the store was opened with, in column order.
    pub closed spec fn spec_categorys(self) -> Seq<DataCategory> {
        self.categorys@
    }

    /// The index of the entry binding a key, if one does.
    fn find(&self, category: DataCategory, key: &[u8]) -> (r: Option<usize>)
        ensures
            match r {
                Some(i) => i < self.entries@.len() && self.entries@[i as int].category == category
                    && self.entries@[i as int].key@ == key@,
                None => forall|i: int|
                    0 <= i < self.entries@.len() ==> !((#[trigger] self.entries@[i]).category
                        == category && self.entries@[i].key@ == key@),
            },
    {
        let n = self.entries.len();
        let mut i: usize = 0;
        while i < n
            invariant
                0 <= i <= n,
                n == self.entries@.len(),
                forall|p: int|
                    0 <= p < i ==> !((#[trigger] self.entries@[p]).category == category
                        && self.entries@[p].key@ == key@),
            decreases n - i,
        {
            if self.entries[i].category == category && bytes_match(&self.entries[i].key, key) {
                return Some(i);
            }
            i = i + 1;
        }
        None
    }

    /// Opens the store with the default configuration: the same store that
    /// `open` yields for `Config::default()`.
    pub fn open_default(path: &str) -> (r: Result<RocksDB, DatabaseError>)
        ensures
            match r {
                Ok(db) => {
                    &&& db.contents() == StoreModel::empty()
                    &&& db.spec_config() == crate::config::spec_default_config()
                    &&& db.spec_categorys() == spec_all_categories()
                },
                Err(_) => false,
            },
    {
        Self::open(path, &Config::default())
    }

    /// Opens the store named by `path` with the given configuration, with
    /// one column per key space.
    pub fn open(path: &str, config: &Config) -> (r: Result<RocksDB, DatabaseError>)
        ensures
            match r {
                Ok(db) => {
                    &&& db.contents() == StoreModel::empty()
                    &&& db.spec_config() == *config
                    &&& db.spec_categorys() == spec_all_categories()
                },
                Err(_) => false,
            },
    {
        let _ = path;
        let mut categorys: Vec<DataCategory> = Vec::new();
        categorys.push(DataCategory::State);
        categorys.push(DataCategory::Headers);
        categorys.push(DataCategory::Bodies);
        categorys.push(DataCategory::Extra);
        categorys.push(DataCategory::Trace);
        categorys.push(DataCategory::AccountBloom);
        categorys.push(DataCategory::Other);
        proof {
            assert(categorys@ =~= spec_all_categories());
        }
        let db = RocksDB { entries: Vec::new(), categorys, config: config.clone() };
        Ok(db)
    }

    /// Drops every column: afterwards the store holds nothing.
    pub fn clean(&mut self)
        ensures
            final(self).contents() == StoreModel::empty(),
    {
        self.entries = Vec::new();
    }
}

/// Whether a stored key equals the requested one.
fn bytes_match(a: &Vec<u8>, b: &[u8]) -> (r: bool)
    ensures
        r == (a@ == b@),
{
    if a.len() != b.len() {
        proof {
            assert(a@.len() != b@.len());
        }
        return false;
    }
    let n = a.len();
    let mut i: usize = 0;
    while i < n
        invariant
            0 <= i <= n,
            n == a@.len(),
            n == b@.len(),
            forall|p: int| 0 <= p < i ==> a@[p] == b@[p],
        decreases n - i,
    {
        if a[i] != b[i] {
            return false;
        }
        i = i + 1;
    }
    proof {
        assert(a@ =~= b@);
    }
    true
}

impl Database for RocksDB {
    closed spec fn contents(&self) -> StoreModel {
        entries_model(self.entries@)
    }

    fn get(&self, category: DataCategory, key: &[u8]) -> (r: Result<Option<Vec<u8>>, DatabaseError>)
        ensures
            r is Ok,
    {
        proof {
            use_type_invariant(&*self);
        }
        match self.find(category, key) {
            Some(i) => {
                proof {
                    lemma_model_at(self.entries@, i as int);
                }
                Ok(Some(copy_bytes(&self.entries[i].value)))
            }
            None => {
                proof {
                    lemma_model_dom(self.entries@, category, key@);
                }
                Ok(None)
            }
        }
    }

    fn get_batch(&self, category: DataCategory, keys: &[Vec<u8>]) -> (r: Result<
        Vec<Option<Vec<u8>>>,
        DatabaseError,
    >)
        ensures
            r is Ok,
    {
        proof {
            use_type_invariant(&*self);
        }
        let n = keys.len();
        let mut values: Vec<Option<Vec<u8>>> = Vec::new();
        let mut i: usize = 0;
        while i < n
            invariant
                0 <= i <= n,
                n == keys@.len(),
                values@.len() == i,
                entries_distinct(self.entries@),
                forall|p: int|
                    0 <= p < i ==> match #[trigger] values@[p] {
                        Some(v) => self.contents().contains_key((category, keys@[p]@)) && v@
                            == self.contents()[(category, keys@[p]@)],
                        None => !self.contents().contains_key((category, keys@[p]@)),
                    },
            decreases n - i,
        {
            match self.find(category, &keys[i]) {
                Some(j) => {
                    proof {
                        lemma_model_at(self.entries@, j as int);
                    }
                    values.push(Some(copy_bytes(&self.entries[j].value)));
                }
                None => {
                    proof {
                        lemma_model_dom(self.entries@, category, keys@[i as int]@);
                    }
                    values.push(None);
                }
            }
            i = i + 1;
        }
        Ok(values)
    }

    fn insert(&mut self, category: DataCategory, key: Vec<u8>, value: Vec<u8>) -> (r: Result<
        (),
        DatabaseError,
    >)
        ensures
            r is Ok,
    {
        proof {
            use_type_invariant(&*self);
        }
        let ghost old_entries = self.entries@;
        let found = self.find(category, key.as_slice());
        let mut entries: Vec<Entry> = Vec::new();
        core::mem::swap(&mut entries, &mut self.entries);
        match found {
            Some(i) => {
                proof {
                    lemma_model_remove(entries@, i as int);
                }
                let _ = entries.remove(i);
                proof {
                    assert(entries_distinct(entries@)) by {
                        assert(forall|p: int|
                            0 <= p < entries@.len() ==> #[trigger] entries@[p]
                                == if p < i { old_entries[p] } else { old_entries[p + 1] });
                    }
                    assert forall|p: int|
                        0 <= p < entries@.len() implies !((#[trigger] entries@[p]).category
                        == category && entries@[p].key@ == key@) by {
                        if p < i {
                            assert(entries@[p] == old_entries[p]);
                        } else {
                            assert(entries@[p] == old_entries[p + 1]);
                        }
                    }
                }
                entries.push(Entry { category, key, value });
                proof {
                    assert(entries@.drop_last() =~= old_entries.remove(i as int));
                    assert(entries_model(entries@) =~= entries_model(old_entries).insert(
                        (category, key@),
                        value@,
                    ));
                }
                self.entries = entries;
                Ok(())
            }
            None => {
                entries.push(Entry { category, key, value });
                proof {
                    assert(entries@.drop_last() =~= old_entries);
                }
                self.entries = entries;
                Ok(())
            }
        }
    }

    fn insert_batch(&mut self, category: DataCategory, keys: Vec<Vec<u8>>, values: Vec<Vec<u8>>)
        -> (r: Result<(), DatabaseError>)
        ensures
            r is Ok <==> keys@.len() == values@.len(),
    {
        if keys.len() != values.len() {
            return Err(DatabaseError::InvalidData);
        }
        let ghost ks = keys@.map_values(|k: Vec<u8>| k@);
        let ghost vs = values@.map_values(|v: Vec<u8>| v@);
        let ghost old_model = self.contents();
        let n = keys.len();
        let mut i: usize = 0;
        while i < n
            invariant
                0 <= i <= n,
                n == keys@.len(),
                n == values@.len(),
                ks == keys@.map_values(|k: Vec<u8>| k@),
                vs == values@.map_values(|v: Vec<u8>| v@),
                self.contents() == spec_insert_all(old_model, category, ks.take(i as int), vs.take(i as int)),
            decreases n - i,
        {
            let key = copy_bytes(&keys[i]);
            let value = copy_bytes(&values[i]);
            let ghost pre = self.contents();
            match self.insert(category, key, value) {
                Ok(()) => {}
                Err(e) => {
                    return Err(e);
                }
            }
            proof {
                lemma_insert_all_push(
                    old_model,
                    category,
                    ks.take(i as int),
                    vs.take(i as int),
                    ks[i as int],
                    vs[i as int],
                );
                assert(ks.take(i as int).push(ks[i as int]) =~= ks.take(i + 1));
                assert(vs.take(i as int).push(vs[i as int]) =~= vs.take(i + 1));
            }
            i = i + 1;
        }
        proof {
            assert(ks.take(n as int) =~= ks);
            assert(vs.take(n as int) =~= vs);
        }
        Ok(())
    }

    fn contains(&self, category: DataCategory, key: &[u8]) -> (r: Result<bool, DatabaseError>)
        ensures
            r is Ok,
    {
        proof {
            use_type_invariant(&*self);
        }
        match self.find(category, key) {
            Some(i) => {
                proof {
                    lemma_model_at(self.entries@, i as int);
                }
                Ok(true)
            }
            None => {
                proof {
                    lemma_model_dom(self.entries@, category, key@);
                }
                Ok(false)
            }
        }
    }

    fn remove(&mut self, category: DataCategory, key: &[u8]) -> (r: Result<(), DatabaseError>)
        ensures
            r is Ok,
    {
        proof {
            use_type_invariant(&*self);
        }
        let ghost old_entries = self.entries@;
        let found = self.find(category, key);
        match found {
            Some(i) => {
                let mut entries: Vec<Entry> = Vec::new();
                core::mem::swap(&mut entries, &mut self.entries);
                proof {
                    lemma_model_remove(entries@, i as int);
                }
                let _ = entries.remove(i);
                proof {
                    assert(entries_distinct(entries@)) by {
                        assert(forall|p: int|
                            0 <= p < entries@.len() ==> #[trigger] entries@[p]
                                == if p < i { old_entries[p] } else { old_entries[p + 1] });
                    }
                }
                self.entries = entries;
                Ok(())
            }
            None => {
                proof {
                    lemma_model_dom(self.entries@, category, key@);
                    assert(self.contents().remove((category, key@)) =~= self.contents());
                }
                Ok(())
            }
        }
    }

    fn remove_batch(&mut self, category: DataCategory, keys: &[Vec<u8>]) -> (r: Result<
        (),
        DatabaseError,
    >)
        ensures
            r is Ok,
    {
        let ghost ks = keys@.map_values(|k: Vec<u8>| k@);
        let ghost old_model = self.contents();
        let n = keys.len();
        let mut i: usize = 0;
        while i < n
            invariant
                0 <= i <= n,
                n == keys@.len(),
                ks == keys@.map_values(|k: Vec<u8>| k@),
                self.contents() == spec_remove_all(old_model, category, ks.take(i as int)),
            decreases n - i,
        {
            match self.remove(category, &keys[i]) {
                Ok(()) => {}
                Err(e) => {
                    return Err(e);
                }
            }
            proof {
                lemma_remove_all_push(old_model, category, ks.take(i as int), ks[i as int]);
                assert(ks.take(i as int).push(ks[i as int]) =~= ks.take(i + 1));
            }
            i = i + 1;
        }
        proof {
            assert(ks.take(n as int) =~= ks);
        }
        Ok(())
    }
}

} // verus!
