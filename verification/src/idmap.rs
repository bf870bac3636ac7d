//! A small map keyed by integer ids, kept in increasing key order.

use vstd::prelude::*;

verus! {

/// The keys of `s` strictly increase.
pub open spec fn increasing_keys<V>(s: Seq<(u32, V)>) -> bool {
    forall|i: int, j: int| 0 <= i < j < s.len() ==> #[trigger] s[i].0 < #[trigger] s[j].0
}

/// The map the entries `s` denote.
pub open spec fn entries_map<V>(s: Seq<(u32, V)>) -> Map<u32, V> {
    Map::new(
        |k: u32| exists|i: int| 0 <= i < s.len() && s[i].0 == k,
        |k: u32| s[choose|i: int| 0 <= i < s.len() && s[i].0 == k].1,
    )
}

pub proof fn lemma_entries_map_at<V>(s: Seq<(u32, V)>, i: int)
    requires
        increasing_keys(s),
        0 <= i < s.len(),
    ensures
        entries_map(s).contains_key(s[i].0),
        entries_map(s)[s[i].0] == s[i].1,
{
    let k = s[i].0;
    assert(entries_map(s).dom().contains(k));
    let j = choose|j: int| 0 <= j < s.len() && s[j].0 == k;
    if j < i {
        assert(s[j].0 < s[i].0);
    } else if i < j {
        assert(s[i].0 < s[j].0);
    }
}

/// An id-keyed map in increasing key order.
#[derive(Debug, Clone, PartialEq, Eq)]
pub struct IdMap<V> {
    entries: Vec<(u32, V)>,
}

impl<V: Copy> IdMap<V> {
    /// The entries, in increasing key order.
    pub closed spec fn entries(self) -> Seq<(u32, V)> {
        self.entries@
    }

    pub closed spec fn wf(self) -> bool {
        increasing_keys(self.entries@)
    }

    /// The map denoted.
    pub open spec fn view_map(self) -> Map<u32, V> {
        entries_map(self.entries())
    }

    pub proof fn lemma_wf(self)
        requires
            self.wf(),
        ensures
            increasing_keys(self.entries()),
            forall|k: u32| #[trigger] self.view_map().contains_key(k) == exists|i: int|
                0 <= i < self.entries().len() && self.entries()[i].0 == k,
            forall|i: int| 0 <= i < self.entries().len() ==> #[trigger] self.view_map()[self.entries()[i].0]
                == self.entries()[i].1,
    {
        assert forall|i: int| 0 <= i < self.entries().len() implies #[trigger] self.view_map()[self.entries()[i].0]
            == self.entries()[i].1 by {
            lemma_entries_map_at(self.entries(), i);
        }
    }

    pub fn new() -> (m: IdMap<V>)
        ensures
            m.wf(),
            m.entries() == Seq::<(u32, V)>::empty(),
            m.view_map() == Map::<u32, V>::empty(),
    {
        let m = IdMap { entries: Vec::new() };
        assert(m.view_map() =~= Map::<u32, V>::empty());
        m
    }

    pub fn len(&self) -> (n: usize)
        ensures
            n == self.entries().len(),
    {
        self.entries.len()
    }

    /// The `i`-th entry in key order.
    pub fn at(&self, i: usize) -> (e: (u32, V))
        requires
            i < self.entries().len(),
        ensures
            e == self.entries()[i as int],
    {
        self.entries[i]
    }

    /// The value at `k`, if any.
    pub fn get(&self, k: u32) -> (r: Option<V>)
        requires
            self.wf(),
        ensures
            r == if self.view_map().contains_key(k) {
                Some(self.view_map()[k])
            } else {
                None::<V>
            },
    {
        proof {
            self.lemma_wf();
        }
        let mut i: usize = 0;
        while i < self.entries.len()
            invariant
                0 <= i <= self.entries@.len(),
                self.wf(),
                forall|j: int| 0 <= j < i ==> self.entries@[j].0 != k,
            decreases self.entries.len() - i,
        {
            if self.entries[i].0 == k {
                return Some(self.entries[i].1);
            }
            i += 1;
        }
        None
    }

    /// Whether `k` has a value.
    pub fn contains_key(&self, k: u32) -> (r: bool)
        requires
            self.wf(),
        ensures
            r == self.view_map().contains_key(k),
    {
        self.get(k).is_some()
    }

    /// Set the value at `k` (replacing any previous one).
    pub fn insert(&mut self, k: u32, v: V)
        requires
            old(self).wf(),
        ensures
            final(self).wf(),
            final(self).view_map() == old(self).view_map().insert(k, v),
    {
        proof {
            old(self).lemma_wf();
        }
        let mut i: usize = 0;
        while i < self.entries.len() && self.entries[i].0 < k
            invariant
                0 <= i <= self.entries@.len(),
                forall|j: int| 0 <= j < i ==> self.entries@[j].0 < k,
            decreases self.entries.len() - i,
        {
            i += 1;
        }
        let ghost before = self.entries@;
        if i < self.entries.len() && self.entries[i].0 == k {
            self.entries.set(i, (k, v));
            proof {
                let after = self.entries@;
                assert(increasing_keys(after)) by {
                    assert forall|a: int, b: int| 0 <= a < b < after.len() implies #[trigger] after[a].0
                        < #[trigger] after[b].0 by {
                        assert(before[a].0 < before[b].0);
                    }
                }
                self.lemma_wf();
                assert(self.view_map() =~= entries_map(before).insert(k, v)) by {
                    assert forall|q: u32| #[trigger] self.view_map().contains_key(q) == entries_map(
                        before,
                    ).insert(k, v).contains_key(q) by {
                        if exists|j: int| 0 <= j < before.len() && before[j].0 == q {
                            let j = choose|j: int| 0 <= j < before.len() && before[j].0 == q;
                            assert(after[j].0 == q);
                        }
                        if exists|j: int| 0 <= j < after.len() && after[j].0 == q {
                            let j = choose|j: int| 0 <= j < after.len() && after[j].0 == q;
                            assert(before[j].0 == q);
                        }
                    }
                    assert forall|q: u32| #[trigger] self.view_map().contains_key(q) implies self.view_map()[q]
                        == entries_map(before).insert(k, v)[q] by {
                        let j = choose|j: int| 0 <= j < after.len() && after[j].0 == q;
                        lemma_entries_map_at(after, j);
                        if j != i {
                            lemma_entries_map_at(before, j);
                        }
                    }
                }
            }
            return;
        }
        self.entries.insert(i, (k, v));
        proof {
            let after = self.entries@;
            assert(after == before.insert(i as int, (k, v)));
            assert(increasing_keys(after)) by {
                assert forall|a: int, b: int| 0 <= a < b < after.len() implies #[trigger] after[a].0
                    < #[trigger] after[b].0 by {
                    if i < before.len() {
                        assert(before[i as int].0 > k);
                    }
                    if a < i && b > i {
                        assert(after[b] == before[b - 1]);
                    } else if a == i && b > i {
                        assert(after[b] == before[b - 1]);
                        if b - 1 > i {
                            assert(before[i as int].0 < before[b - 1].0);
                        }
                    } else if a > i {
                        assert(after[a] == before[a - 1]);
                        assert(after[b] == before[b - 1]);
                    }
                }
            }
            self.lemma_wf();
            assert(self.view_map() =~= entries_map(before).insert(k, v)) by {
                assert forall|q: u32| #[trigger] self.view_map().contains_key(q) == entries_map(
                    before,
                ).insert(k, v).contains_key(q) by {
                    if exists|j: int| 0 <= j < before.len() && before[j].0 == q {
                        let j = choose|j: int| 0 <= j < before.len() && before[j].0 == q;
                        if j < i {
                            assert(after[j].0 == q);
                        } else {
                            assert(after[j + 1].0 == q);
                        }
                    }
                    if q == k {
                        assert(after[i as int].0 == q);
                    }
                    if exists|j: int| 0 <= j < after.len() && after[j].0 == q {
                        let j = choose|j: int| 0 <= j < after.len() && after[j].0 == q;
                        if j < i {
                            assert(before[j].0 == q);
                        } else if j > i {
                            assert(before[j - 1].0 == q);
                        }
                    }
                }
                assert forall|q: u32| #[trigger] self.view_map().contains_key(q) implies self.view_map()[q]
                    == entries_map(before).insert(k, v)[q] by {
                    let j = choose|j: int| 0 <= j < after.len() && after[j].0 == q;
                    lemma_entries_map_at(after, j);
                    if j < i {
                        lemma_entries_map_at(before, j);
                    } else if j > i {
                        assert(after[j] == before[j - 1]);
                        lemma_entries_map_at(before, j - 1);
                    }
                }
            }
        }
    }

    /// Drop the value at `k`, if any.
    pub fn remove(&mut self, k: u32)
        requires
            old(self).wf(),
        ensures
            final(self).wf(),
            final(self).view_map() == old(self).view_map().remove(k),
    {
        proof {
            old(self).lemma_wf();
        }
        let mut i: usize = 0;
        while i < self.entries.len() && self.entries[i].0 != k
            invariant
                0 <= i <= self.entries@.len(),
                forall|j: int| 0 <= j < i ==> self.entries@[j].0 != k,
            decreases self.entries.len() - i,
        {
            i += 1;
        }
        let ghost before = self.entries@;
        if i == self.entries.len() {
            assert(self.view_map() =~= entries_map(before).remove(k));
            return;
        }
        self.entries.remove(i);
        proof {
            let after = self.entries@;
            assert(after =~= before.remove(i as int));
            assert(increasing_keys(after)) by {
                assert forall|a: int, b: int| 0 <= a < b < after.len() implies #[trigger] after[a].0
                    < #[trigger] after[b].0 by {
                    if a < i && b >= i {
                        assert(after[b] == before[b + 1]);
                    } else if a >= i {
                        assert(after[a] == before[a + 1]);
                        assert(after[b] == before[b + 1]);
                    }
                }
            }
            self.lemma_wf();
            assert(self.view_map() =~= entries_map(before).remove(k)) by {
                assert forall|q: u32| #[trigger] self.view_map().contains_key(q) == entries_map(
                    before,
                ).remove(k).contains_key(q) by {
                    if exists|j: int| 0 <= j < before.len() && before[j].0 == q && q != k {
                        let j = choose|j: int| 0 <= j < before.len() && before[j].0 == q && q != k;
                        if j < i {
                            assert(after[j].0 == q);
                        } else {
                            assert(j != i);
                            assert(after[j - 1].0 == q);
                        }
                    }
                    if exists|j: int| 0 <= j < after.len() && after[j].0 == q {
                        let j = choose|j: int| 0 <= j < after.len() && after[j].0 == q;
                        if j < i {
                            assert(before[j].0 == q);
                        } else {
                            assert(before[j + 1].0 == q);
                            assert(before[i as int].0 < before[j + 1].0);
                        }
                    }
                }
                assert forall|q: u32| #[trigger] self.view_map().contains_key(q) implies self.view_map()[q]
                    == entries_map(before).remove(k)[q] by {
                    let j = choose|j: int| 0 <= j < after.len() && after[j].0 == q;
                    lemma_entries_map_at(after, j);
                    if j < i {
                        lemma_entries_map_at(before, j);
                    } else {
                        assert(after[j] == before[j + 1]);
                        lemma_entries_map_at(before, j + 1);
                    }
                }
            }
        }
    }
}

} // verus!
