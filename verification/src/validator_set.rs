use vstd::prelude::*;
use crate::Address;
use crate::engine::EngineError;

verus! {

/// A validator list that becomes effective at a given block height.
pub struct Transition {
    pub effective_height: u64,
    pub validators: Vec<Address>,
}

/// An ordered, deduplicated set of authority identities, together with the
/// epoch transitions that replace the list from a given height onward.
pub struct ValidatorSet {
    /// The list in force from height zero, until the first transition.
    pub initial: Vec<Address>,
    /// Recorded transitions, sorted by strictly increasing effective height.
    pub transitions: Vec<Transition>,
}

/// No identity occurs twice in the list.
pub open spec fn distinct(s: Seq<Address>) -> bool {
    forall|i: int, j: int| 0 <= i < j < s.len() ==> s[i] != s[j]
}

/// A usable validator list: non-empty and without duplicates.
pub open spec fn wf_list(s: Seq<Address>) -> bool {
    s.len() > 0 && distinct(s)
}

/// The list in force at `height`, resolved against a transition sequence
/// sorted by ascending height: the latest transition at or before `height`,
/// or `dflt` when no transition has taken effect yet.
pub open spec fn lookup(ts: Seq<Transition>, height: u64, dflt: Seq<Address>) -> Seq<Address>
    decreases ts.len(),
{
    if ts.len() == 0 {
        dflt
    } else if ts.last().effective_height <= height {
        ts.last().validators@
    } else {
        lookup(ts.drop_last(), height, dflt)
    }
}

/// Whether some transition takes effect strictly after `lo` and at or
/// before `hi`.
pub open spec fn has_transition_between(ts: Seq<Transition>, lo: u64, hi: u64) -> bool {
    exists|i: int| 0 <= i < ts.len() && lo < (#[trigger] ts[i]).effective_height <= hi
}

impl ValidatorSet {
    pub open spec fn wf(self) -> bool {
        &&& wf_list(self.initial@)
        &&& forall|i: int|
            0 <= i < self.transitions@.len() ==> wf_list(#[trigger] self.transitions@[i].validators@)
        &&& forall|i: int, j: int|
            0 <= i < j < self.transitions@.len()
                ==> self.transitions@[i].effective_height < self.transitions@[j].effective_height
    }

    /// The validator list applicable at a block height.
    pub open spec fn spec_validators_at(self, height: u64) -> Seq<Address> {
        lookup(self.transitions@, height, self.initial@)
    }

    /// The single identity entitled to produce the block of `step` at `height`.
    pub open spec fn spec_proposer(self, height: u64, step: u64) -> Address
        recommends self.wf(),
    {
        let vals = self.spec_validators_at(height);
        vals[step as int % vals.len() as int]
    }

    /// Builds a set from its genesis list; rejects an empty or duplicated
    /// list as an invalid configuration.
    pub fn new(initial: Vec<Address>) -> (r: Result<ValidatorSet, EngineError>)
        ensures
            match r {
                Ok(vs) => wf_list(initial@) && vs.wf() && vs.transitions@.len() == 0
                    && vs.initial@ == initial@,
                Err(e) => e == EngineError::InvalidConfiguration && !wf_list(initial@),
            },
    {
        if !check_wf_list(&initial) {
            return Err(EngineError::InvalidConfiguration);
        }
        Ok(ValidatorSet { initial, transitions: Vec::new() })
    }

    /// The validator list applicable at `height`: the latest recorded
    /// transition at or before that height, found by binary search, or the
    /// genesis list when none has taken effect.
    pub fn validators_at(&self, height: u64) -> (r: &Vec<Address>)
        requires
            self.wf(),
        ensures
            r@ == self.spec_validators_at(height),
    {
        let n = self.transitions.len();
        if n == 0 || self.transitions[0].effective_height > height {
            proof {
                lemma_lookup_all_later(self.transitions@, height, self.initial@);
            }
            return &self.initial;
        }
        // Binary search for the greatest index whose height is <= height.
        let mut lo: usize = 0;
        let mut hi: usize = n;
        while hi - lo > 1
            invariant
                0 <= lo < hi <= n,
                n == self.transitions@.len(),
                self.wf(),
                self.transitions@[lo as int].effective_height <= height,
                hi < n ==> self.transitions@[hi as int].effective_height > height,
            decreases hi - lo,
        {
            let mid = lo + (hi - lo) / 2;
            if self.transitions[mid].effective_height <= height {
                lo = mid;
            } else {
                hi = mid;
            }
        }
        proof {
            lemma_lookup_found(self.transitions@, height, self.initial@, lo as int);
        }
        &self.transitions[lo].validators
    }

    /// Round-robin selection: the element of the applicable list indexed by
    /// the step modulo the list's length.
    pub fn proposer_for(&self, height: u64, step: u64) -> (r: Address)
        requires
            self.wf(),
        ensures
            r == self.spec_proposer(height, step),
    {
        proof {
            self.lemma_validators_at_wf(height);
        }
        let vals = self.validators_at(height);
        let len = vals.len() as u64;
        let idx = (step % len) as usize;
        vals[idx]
    }

    /// The applicable list at any height of a well-formed set is itself
    /// well formed: non-empty and without duplicate identities.
    pub proof fn lemma_validators_at_wf(self, height: u64)
        requires
            self.wf(),
        ensures
            wf_list(self.spec_validators_at(height)),
    {
        lemma_lookup_wf(self.transitions@, height, self.initial@);
    }

    /// Whether `identity` is a member of the list applicable at `height`.
    pub fn is_valid(&self, height: u64, identity: Address) -> (r: bool)
        requires
            self.wf(),
        ensures
            r == self.spec_validators_at(height).contains(identity),
    {
        let vals = self.validators_at(height);
        contains_address(vals, identity)
    }

    /// Records a governance-reported validator list effective at
    /// `effective_height`.  Lookups at or above that height (until any later
    /// transition) use the new list; lookups below it are unaffected.  An
    /// empty or duplicated list, or a height at which a transition is already
    /// recorded, is an invalid configuration and leaves the set unchanged.
    pub fn add_transition(&mut self, effective_height: u64, validators: Vec<Address>) -> (r: Result<
        (),
        EngineError,
    >)
        requires
            old(self).wf(),
        ensures
            match r {
                Ok(()) => {
                    &&& wf_list(validators@)
                    &&& final(self).wf()
                    &&& forall|h: u64|
                        final(self).spec_validators_at(h) == if h < effective_height
                            || has_transition_between(old(self).transitions@, effective_height, h) {
                            old(self).spec_validators_at(h)
                        } else {
                            validators@
                        }
                },
                Err(e) => {
                    &&& e == EngineError::InvalidConfiguration
                    &&& *final(self) == *old(self)
                    &&& (!wf_list(validators@) || (exists|i: int|
                        0 <= i < old(self).transitions@.len()
                            && (#[trigger] old(self).transitions@[i]).effective_height
                            == effective_height))
                },
            },
    {
        if !check_wf_list(&validators) {
            return Err(EngineError::InvalidConfiguration);
        }
        // Find the insertion point: the number of transitions strictly
        // before the new effective height.
        let n = self.transitions.len();
        let mut pos: usize = 0;
        while pos < n && self.transitions[pos].effective_height < effective_height
            invariant
                0 <= pos <= n,
                n == self.transitions@.len(),
                old(self).wf(),
                self == old(self),
                forall|i: int| 0 <= i < pos ==> self.transitions@[i].effective_height < effective_height,
            decreases n - pos,
        {
            pos = pos + 1;
        }
        if pos < n && self.transitions[pos].effective_height == effective_height {
            return Err(EngineError::InvalidConfiguration);
        }
        let ghost old_ts = self.transitions@;
        proof {
            assert forall|p: int| pos <= p < old_ts.len() implies (#[trigger] old_ts[p]).effective_height
                > effective_height by {
                assert(old_ts[pos as int].effective_height >= effective_height);
                assert(old_ts[pos as int].effective_height != effective_height);
                if p > pos {
                    assert(old_ts[pos as int].effective_height < old_ts[p].effective_height);
                }
            }
        }
        let t = Transition { effective_height, validators };
        self.transitions.insert(pos, t);
        proof {
            assert forall|i: int, j: int|
                0 <= i < j < self.transitions@.len() implies self.transitions@[i].effective_height
                < self.transitions@[j].effective_height by {
                if j < pos {
                } else if i >= pos + 1 {
                    assert(old_ts[i - 1].effective_height < old_ts[j - 1].effective_height);
                } else if j == pos {
                    assert(old_ts[i].effective_height < effective_height);
                } else if i == pos {
                    assert(old_ts[j - 1].effective_height > effective_height);
                } else {
                    assert(old_ts[i].effective_height < effective_height);
                    assert(effective_height < old_ts[j - 1].effective_height);
                }
            }
            assert forall|h: u64|
                self.spec_validators_at(h) == if h < effective_height
                    || has_transition_between(old_ts, effective_height, h) {
                    lookup(old_ts, h, self.initial@)
                } else {
                    t.validators@
                } by {
                lemma_lookup_insert(old_ts, pos as int, t, h, self.initial@);
            }
        }
        Ok(())
    }
}

/// Checks that a list is non-empty and free of duplicates.
pub fn check_wf_list(vals: &Vec<Address>) -> (r: bool)
    ensures
        r == wf_list(vals@),
{
    let n = vals.len();
    if n == 0 {
        return false;
    }
    let mut i: usize = 0;
    while i < n
        invariant
            0 <= i <= n,
            n == vals@.len(),
            forall|p: int, q: int| 0 <= p < q < vals@.len() && p < i ==> vals@[p] != vals@[q],
        decreases n - i,
    {
        let mut j: usize = i + 1;
        while j < n
            invariant
                i < j <= n,
                i < n,
                n == vals@.len(),
                forall|q: int| i < q < j ==> vals@[i as int] != vals@[q],
            decreases n - j,
        {
            if vals[i] == vals[j] {
                return false;
            }
            j = j + 1;
        }
        i = i + 1;
    }
    true
}

/// Linear membership scan.
pub fn contains_address(vals: &Vec<Address>, identity: Address) -> (r: bool)
    ensures
        r == vals@.contains(identity),
{
    let n = vals.len();
    let mut i: usize = 0;
    while i < n
        invariant
            0 <= i <= n,
            n == vals@.len(),
            forall|p: int| 0 <= p < i ==> vals@[p] != identity,
        decreases n - i,
    {
        if vals[i] == identity {
            return true;
        }
        i = i + 1;
    }
    false
}

/// A lookup over well-formed lists yields a well-formed list.
proof fn lemma_lookup_wf(ts: Seq<Transition>, height: u64, dflt: Seq<Address>)
    requires
        wf_list(dflt),
        forall|i: int| 0 <= i < ts.len() ==> wf_list(#[trigger] ts[i].validators@),
    ensures
        wf_list(lookup(ts, height, dflt)),
    decreases ts.len(),
{
    if ts.len() > 0 && ts.last().effective_height > height {
        assert(forall|i: int|
            0 <= i < ts.drop_last().len() ==> wf_list(#[trigger] ts.drop_last()[i].validators@));
        lemma_lookup_wf(ts.drop_last(), height, dflt);
    }
}

/// When every transition takes effect after `height`, the lookup yields the
/// default list.
proof fn lemma_lookup_all_later(ts: Seq<Transition>, height: u64, dflt: Seq<Address>)
    requires
        forall|i: int, j: int|
            0 <= i < j < ts.len() ==> ts[i].effective_height < ts[j].effective_height,
        ts.len() > 0 ==> ts[0].effective_height > height,
    ensures
        lookup(ts, height, dflt) == dflt,
    decreases ts.len(),
{
    if ts.len() > 0 {
        assert(ts.last().effective_height >= ts[0].effective_height);
        lemma_lookup_all_later(ts.drop_last(), height, dflt);
    }
}

/// When `ts[i]` is in effect at `height` (it is at or before `height` and
/// the next transition, if any, is after), the lookup yields its list.
proof fn lemma_lookup_found(ts: Seq<Transition>, height: u64, dflt: Seq<Address>, i: int)
    requires
        forall|p: int, q: int|
            0 <= p < q < ts.len() ==> ts[p].effective_height < ts[q].effective_height,
        0 <= i < ts.len(),
        ts[i].effective_height <= height,
        i + 1 < ts.len() ==> ts[i + 1].effective_height > height,
    ensures
        lookup(ts, height, dflt) == ts[i].validators@,
    decreases ts.len(),
{
    if i + 1 == ts.len() {
    } else {
        assert(ts.last().effective_height >= ts[i + 1].effective_height);
        lemma_lookup_found(ts.drop_last(), height, dflt, i);
    }
}

/// How a lookup responds to inserting a transition `t` at sorted position
/// `pos`: heights below `t` (and heights already governed by a transition
/// between `t`'s height and theirs) are unaffected; the rest see `t`'s list.
proof fn lemma_lookup_insert(
    ts: Seq<Transition>,
    pos: int,
    t: Transition,
    height: u64,
    dflt: Seq<Address>,
)
    requires
        forall|p: int, q: int|
            0 <= p < q < ts.len() ==> ts[p].effective_height < ts[q].effective_height,
        0 <= pos <= ts.len(),
        forall|p: int| 0 <= p < pos ==> ts[p].effective_height < t.effective_height,
        forall|p: int| pos <= p < ts.len() ==> ts[p].effective_height > t.effective_height,
    ensures
        lookup(ts.insert(pos, t), height, dflt) == if height < t.effective_height
            || has_transition_between(ts, t.effective_height, height) {
            lookup(ts, height, dflt)
        } else {
            t.validators@
        },
    decreases ts.len(),
{
    let ts2 = ts.insert(pos, t);
    if pos == ts.len() {
        // t is the new last element.
        if t.effective_height <= height {
            assert(ts2.last() == t);
            assert(forall|i: int|
                0 <= i < ts.len() ==> #[trigger] ts[i].effective_height < t.effective_height);
            assert(!has_transition_between(ts, t.effective_height, height));
        } else {
            assert(ts2.drop_last() =~= ts);
        }
    } else {
        // The old last element stays last.
        assert(ts2.last() == ts.last());
        assert(ts2.drop_last() =~= ts.drop_last().insert(pos, t));
        if ts.last().effective_height <= height {
            assert(t.effective_height < ts.last().effective_height);
            assert(has_transition_between(ts, t.effective_height, height));
        } else {
            lemma_lookup_insert(ts.drop_last(), pos, t, height, dflt);
            assert(has_transition_between(ts.drop_last(), t.effective_height, height)
                == has_transition_between(ts, t.effective_height, height)) by {
                if has_transition_between(ts, t.effective_height, height) {
                    let i = choose|i: int|
                        0 <= i < ts.len() && t.effective_height < (#[trigger] ts[i]).effective_height <= height;
                    assert(i < ts.len() - 1);
                    assert(ts.drop_last()[i] == ts[i]);
                }
                if has_transition_between(ts.drop_last(), t.effective_height, height) {
                    let i = choose|i: int|
                        0 <= i < ts.drop_last().len() && t.effective_height < (#[trigger] ts.drop_last()[i]).effective_height <= height;
                    assert(ts[i] == ts.drop_last()[i]);
                }
            }
        }
    }
}

} // verus!
