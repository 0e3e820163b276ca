//! Bounded per-instrument price history.
//!
//! The store maps each instrument to the sequence of its price samples
//! in arrival order.  A write appends one sample and, when the sequence
//! would exceed the bound, evicts the oldest sample, so the store always
//! holds the most recent `bound` insertions.

use vstd::prelude::*;

use crate::types::Price;
use crate::util::str_eq;

verus! {

/// Samples kept per instrument unless another bound is configured.
pub const DEFAULT_HISTORY_BOUND: usize = 100;

/// The history recorded for `sym`, if any.
pub open spec fn spec_history(s: Seq<(String, Vec<Price>)>, sym: Seq<char>) -> Option<Seq<Price>>
    decreases s.len(),
{
    if s.len() == 0 {
        None
    } else if s[0].0@ == sym {
        Some(s[0].1@)
    } else {
        spec_history(s.drop_first(), sym)
    }
}

/// One write: append the sample, then evict the oldest sample if the
/// sequence has grown past the bound.
pub open spec fn push_bounded(h: Seq<Price>, p: Price, bound: nat) -> Seq<Price> {
    let grown = h.push(p);
    if grown.len() > bound {
        grown.drop_first()
    } else {
        grown
    }
}

/// The history that a sequence of insertions leaves behind, starting
/// from an empty history.
pub open spec fn replay(inserts: Seq<Price>, bound: nat) -> Seq<Price>
    decreases inserts.len(),
{
    if inserts.len() == 0 {
        Seq::empty()
    } else {
        push_bounded(replay(inserts.drop_last(), bound), inserts.last(), bound)
    }
}

/// Law (bounded history): for every sequence of insertions, the stored
/// sequence never exceeds the bound and is exactly the most recent
/// `bound` insertions in arrival order.  One call of
/// [`PriceHistoryStore::record`] performs one `push_bounded` step, so
/// this holds of the store after any run of writes.
pub proof fn lemma_replay_is_recent_suffix(inserts: Seq<Price>, bound: nat)
    requires
        bound >= 1,
    ensures
        replay(inserts, bound).len() == if inserts.len() <= bound {
            inserts.len() as int
        } else {
            bound as int
        },
        replay(inserts, bound) =~= inserts.skip(
            if inserts.len() <= bound {
                0
            } else {
                inserts.len() - bound
            },
        ),
    decreases inserts.len(),
{
    if inserts.len() > 0 {
        let pre = inserts.drop_last();
        lemma_replay_is_recent_suffix(pre, bound);
        let prev = replay(pre, bound);
        assert(forall|i: int| 0 <= i < pre.len() ==> pre[i] == inserts[i]);
        if prev.len() + 1 > bound {
            assert(replay(inserts, bound) =~= prev.push(inserts.last()).drop_first());
            assert(replay(inserts, bound) =~= inserts.skip(inserts.len() - bound));
        } else {
            assert(replay(inserts, bound) =~= prev.push(inserts.last()));
            assert(replay(inserts, bound) =~= inserts.skip(0));
        }
    }
}

/// If no entry among the first `k` carries `sym`, the lookup is decided
/// by the remaining entries.
proof fn lemma_spec_history_skip(s: Seq<(String, Vec<Price>)>, sym: Seq<char>, k: int)
    requires
        0 <= k <= s.len(),
        forall|i: int| 0 <= i < k ==> s[i].0@ != sym,
    ensures
        spec_history(s, sym) == spec_history(s.skip(k), sym),
    decreases k,
{
    if k > 0 {
        assert(s.drop_first() =~= s.skip(1));
        lemma_spec_history_skip(s.drop_first(), sym, k - 1);
        assert(s.drop_first().skip(k - 1) =~= s.skip(k));
    } else {
        assert(s.skip(0) =~= s);
    }
}

/// A lookup misses exactly when no entry carries the symbol.
pub proof fn lemma_spec_history_none(s: Seq<(String, Vec<Price>)>, sym: Seq<char>)
    ensures
        spec_history(s, sym) is None <==> forall|i: int| 0 <= i < s.len() ==> s[i].0@ != sym,
    decreases s.len(),
{
    if s.len() > 0 {
        lemma_spec_history_none(s.drop_first(), sym);
        assert forall|i: int| 0 <= i < s.drop_first().len() implies s.drop_first()[i]
            == s[i + 1] by {}
        if spec_history(s, sym) is None {
            assert forall|i: int| 0 <= i < s.len() implies s[i].0@ != sym by {
                if i > 0 {
                    assert(s.drop_first()[i - 1] == s[i]);
                }
            }
        }
        if forall|i: int| 0 <= i < s.len() ==> s[i].0@ != sym {
            assert forall|i: int| 0 <= i < s.drop_first().len() implies s.drop_first()[i].0@
                != sym by {
                assert(s.drop_first()[i] == s[i + 1]);
            }
        }
    }
}

/// Replacing the entry at `j` (keeping its key) rewrites that key's
/// lookup and leaves every other key's lookup unchanged.
proof fn lemma_spec_history_update(
    s1: Seq<(String, Vec<Price>)>,
    s2: Seq<(String, Vec<Price>)>,
    j: int,
    sym: Seq<char>,
)
    requires
        s1.len() == s2.len(),
        0 <= j < s1.len(),
        forall|i: int| 0 <= i < s1.len() && i != j ==> s1[i] == s2[i],
        s1[j].0@ == sym,
        s2[j].0@ == sym,
        forall|i: int| 0 <= i < j ==> s1[i].0@ != sym,
    ensures
        spec_history(s2, sym) == Some(s2[j].1@),
        forall|t: Seq<char>| t != sym ==> spec_history(s2, t) == spec_history(s1, t),
    decreases s1.len(),
{
    if j == 0 {
        assert forall|t: Seq<char>| t != sym implies spec_history(s2, t) == spec_history(
            s1,
            t,
        ) by {
            assert(s1.drop_first() =~= s2.drop_first());
        }
    } else {
        lemma_spec_history_update(s1.drop_first(), s2.drop_first(), j - 1, sym);
        assert(spec_history(s2, sym) == Some(s2[j].1@));
        assert forall|t: Seq<char>| t != sym implies spec_history(s2, t) == spec_history(
            s1,
            t,
        ) by {
            assert(s1[0] == s2[0]);
            if s1[0].0@ != t {
                assert(spec_history(s1, t) == spec_history(s1.drop_first(), t));
                assert(spec_history(s2, t) == spec_history(s2.drop_first(), t));
            }
        }
    }
}

/// Appending an entry for a key that misses rewrites that key's lookup
/// and leaves every other key's lookup unchanged.
proof fn lemma_spec_history_push(
    s: Seq<(String, Vec<Price>)>,
    e: (String, Vec<Price>),
    sym: Seq<char>,
)
    requires
        spec_history(s, sym) is None,
        e.0@ == sym,
    ensures
        spec_history(s.push(e), sym) == Some(e.1@),
        forall|t: Seq<char>| t != sym ==> spec_history(s.push(e), t) == spec_history(s, t),
    decreases s.len(),
{
    if s.len() == 0 {
        assert(s.push(e)[0] == e);
        assert forall|t: Seq<char>| t != sym implies spec_history(s.push(e), t) == spec_history(
            s,
            t,
        ) by {
            assert(s.push(e)[0].0@ != t);
            assert(spec_history(s.push(e), t) == spec_history(s.push(e).drop_first(), t));
            assert(s.push(e).drop_first() =~= Seq::<(String, Vec<Price>)>::empty());
            assert(spec_history(s.push(e).drop_first(), t) is None);
            assert(spec_history(s, t) is None);
        }
    } else {
        assert(s.push(e)[0] == s[0]);
        assert(s[0].0@ != sym);
        lemma_spec_history_push(s.drop_first(), e, sym);
        assert(s.push(e).drop_first() =~= s.drop_first().push(e));
        assert forall|t: Seq<char>| t != sym implies spec_history(s.push(e), t) == spec_history(
            s,
            t,
        ) by {
            if s[0].0@ != t {
                assert(spec_history(s.push(e), t) == spec_history(s.drop_first().push(e), t));
                assert(spec_history(s, t) == spec_history(s.drop_first(), t));
            }
        }
    }
}

/// Shared, bounded, per-instrument sequences of price samples, ordered
/// by arrival.
pub struct PriceHistoryStore {
    pub entries: Vec<(String, Vec<Price>)>,
    pub bound: usize,
}

impl PriceHistoryStore {
    /// Keys are unique, every history respects the bound, and every
    /// stored sample is in range.
    pub open spec fn wf(self) -> bool {
        &&& self.bound >= 1
        &&& forall|i: int, j: int|
            0 <= i < j < self.entries@.len() ==> self.entries@[i].0@ != self.entries@[j].0@
        &&& forall|i: int|
            0 <= i < self.entries@.len() ==> self.entries@[i].1@.len() <= self.bound
        &&& forall|i: int, k: int|
            0 <= i < self.entries@.len() && 0 <= k < self.entries@[i].1@.len()
                ==> self.entries@[i].1@[k].wf()
    }

    pub fn new(bound: usize) -> (r: Self)
        requires
            bound >= 1,
        ensures
            r.bound == bound,
            r.entries@ =~= Seq::<(String, Vec<Price>)>::empty(),
            r.wf(),
    {
        PriceHistoryStore { entries: Vec::new(), bound }
    }

    /// A store with the default bound.
    pub fn new_default() -> (r: Self)
        ensures
            r.bound == DEFAULT_HISTORY_BOUND,
            r.entries@ =~= Seq::<(String, Vec<Price>)>::empty(),
            r.wf(),
    {
        PriceHistoryStore { entries: Vec::new(), bound: DEFAULT_HISTORY_BOUND }
    }

    /// The index of the entry keyed by `symbol`, if any.
    fn entry_index(&self, symbol: &str) -> (r: Option<usize>)
        ensures
            match r {
                Some(j) => {
                    &&& j < self.entries@.len()
                    &&& self.entries@[j as int].0@ == symbol@
                    &&& spec_history(self.entries@, symbol@) == Some(
                        self.entries@[j as int].1@,
                    )
                    &&& forall|i: int| 0 <= i < j ==> self.entries@[i].0@ != symbol@
                },
                None => spec_history(self.entries@, symbol@) is None,
            },
    {
        let n = self.entries.len();
        let mut i: usize = 0;
        while i < n
            invariant
                n == self.entries@.len(),
                0 <= i <= n,
                forall|k: int| 0 <= k < i ==> self.entries@[k].0@ != symbol@,
            decreases n - i,
        {
            if str_eq(self.entries[i].0.as_str(), symbol) {
                proof {
                    lemma_spec_history_skip(self.entries@, symbol@, i as int);
                    assert(self.entries@.skip(i as int)[0] == self.entries@[i as int]);
                }
                return Some(i);
            }
            i += 1;
        }
        proof {
            lemma_spec_history_skip(self.entries@, symbol@, n as int);
            assert(self.entries@.skip(n as int) =~= Seq::<(String, Vec<Price>)>::empty());
        }
        None
    }

    /// The recorded history for `symbol`, oldest sample first.
    pub fn history_of(&self, symbol: &str) -> (r: Option<&Vec<Price>>)
        requires
            self.wf(),
        ensures
            match r {
                Some(h) => {
                    &&& spec_history(self.entries@, symbol@) == Some(h@)
                    &&& h@.len() <= self.bound
                    &&& forall|k: int| 0 <= k < h@.len() ==> h@[k].wf()
                },
                None => spec_history(self.entries@, symbol@) is None,
            },
    {
        match self.entry_index(symbol) {
            Some(j) => Some(&self.entries[j].1),
            None => None,
        }
    }

    /// Appends one sample under its own symbol, evicting that symbol's
    /// oldest sample when the bound would be exceeded.  No other
    /// symbol's history changes.
    pub fn record(&mut self, price: Price)
        requires
            old(self).wf(),
            price.wf(),
        ensures
            final(self).wf(),
            final(self).bound == old(self).bound,
            spec_history(final(self).entries@, price.symbol@) == Some(
                push_bounded(
                    match spec_history(old(self).entries@, price.symbol@) {
                        Some(h) => h,
                        None => Seq::empty(),
                    },
                    price,
                    old(self).bound as nat,
                ),
            ),
            forall|t: Seq<char>|
                t != price.symbol@ ==> spec_history(final(self).entries@, t) == spec_history(
                    old(self).entries@,
                    t,
                ),
    {
        match self.entry_index(price.symbol.as_str()) {
            Some(j) => {
                let ghost s1 = self.entries@;
                let mut entry = self.entries.remove(j);
                let ghost sym = price.symbol@;
                entry.1.push(price);
                if entry.1.len() > self.bound {
                    entry.1.remove(0);
                    proof {
                        assert(entry.1@ =~= push_bounded(
                            s1[j as int].1@,
                            price,
                            self.bound as nat,
                        ));
                    }
                }
                self.entries.insert(j, entry);
                proof {
                    assert(self.entries@ =~= s1.update(j as int, entry));
                    lemma_spec_history_update(s1, self.entries@, j as int, sym);
                }
            },
            None => {
                let ghost s1 = self.entries@;
                let ghost sym = price.symbol@;
                let key = price.symbol.clone();
                let mut h: Vec<Price> = Vec::new();
                h.push(price);
                let entry = (key, h);
                self.entries.push(entry);
                proof {
                    lemma_spec_history_push(s1, entry, sym);
                    lemma_spec_history_none(s1, sym);
                    assert(entry.1@ =~= push_bounded(
                        Seq::<Price>::empty(),
                        price,
                        self.bound as nat,
                    ));
                }
            },
        }
    }
}

} // verus!
