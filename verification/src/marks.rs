//! Named marks: a single character maps to a saved top-line value.

use vstd::prelude::*;

verus! {

/// The mapping denoted by a key/value list, later entries inserted last.
pub open spec fn mark_map_of(s: Seq<(char, usize)>) -> Map<char, usize>
    decreases s.len(),
{
    if s.len() == 0 {
        Map::empty()
    } else {
        mark_map_of(s.drop_last()).insert(s.last().0, s.last().1)
    }
}

/// Marks, keyed uniquely by character.
pub struct MarkTable {
    entries: Vec<(char, usize)>,
}

impl View for MarkTable {
    type V = Map<char, usize>;

    closed spec fn view(&self) -> Map<char, usize> {
        mark_map_of(self.entries@)
    }
}

/// A key is in `mark_map_of(s)` exactly when some entry holds it.
pub proof fn lemma_mark_map_contains(s: Seq<(char, usize)>, k: char)
    ensures
        mark_map_of(s).contains_key(k) <==> exists|i: int| 0 <= i < s.len() && #[trigger] s[i].0
            == k,
    decreases s.len(),
{
    if s.len() > 0 {
        lemma_mark_map_contains(s.drop_last(), k);
        if s.last().0 == k {
            assert(s[s.len() - 1].0 == k);
        } else if mark_map_of(s).contains_key(k) {
            let i = choose|i: int| 0 <= i < s.drop_last().len() && #[trigger] s.drop_last()[i].0 == k;
            assert(s[i].0 == k);
        } else {
            assert forall|i: int| 0 <= i < s.len() implies #[trigger] s[i].0 != k by {
                if i < s.len() - 1 {
                    assert(s.drop_last()[i].0 != k);
                }
            }
        }
    }
}

/// When keys are unique, the mapping's value at an entry's key is that
/// entry's value.
pub proof fn lemma_mark_map_unique(s: Seq<(char, usize)>, i: int)
    requires
        forall|a: int, b: int| 0 <= a < b < s.len() ==> (#[trigger] s[a]).0 != (#[trigger] s[b]).0,
        0 <= i < s.len(),
    ensures
        mark_map_of(s).contains_key(s[i].0),
        mark_map_of(s)[s[i].0] == s[i].1,
    decreases s.len(),
{
    lemma_mark_map_contains(s, s[i].0);
    if i < s.len() - 1 {
        assert(s.drop_last()[i] == s[i]);
        lemma_mark_map_unique(s.drop_last(), i);
        assert(s.last().0 != s[i].0);
    }
}

impl MarkTable {
    /// Keys are pairwise distinct.
    pub closed spec fn wf(&self) -> bool {
        forall|a: int, b: int|
            0 <= a < b < self.entries@.len() ==> (#[trigger] self.entries@[a]).0
                != (#[trigger] self.entries@[b]).0
    }

    /// No marks.
    pub fn new() -> (r: MarkTable)
        ensures
            r.wf(),
            r@ == Map::<char, usize>::empty(),
    {
        MarkTable { entries: Vec::new() }
    }

    /// Records `line` under `c`, replacing any previous mark for `c`.
    pub fn set(&mut self, c: char, line: usize)
        requires
            old(self).wf(),
        ensures
            final(self).wf(),
            final(self)@ == old(self)@.insert(c, line),
    {
        let n = self.entries.len();
        let mut kept: Vec<(char, usize)> = Vec::new();
        let mut i: usize = 0;
        while i < n
            invariant
                old(self).wf(),
                n == self.entries@.len(),
                self.entries == old(self).entries,
                i <= n,
                forall|j: int|
                    0 <= j < kept@.len() ==> (#[trigger] kept@[j]).0 != c && (exists|jj: int|
                        0 <= jj < i && old(self).entries@[jj] == kept@[j]),
                forall|j: int|
                    0 <= j < i ==> ((#[trigger] self.entries@[j]).0 == c || kept@.contains(
                        self.entries@[j],
                    )),
                forall|a: int, b: int|
                    0 <= a < b < kept@.len() ==> (#[trigger] kept@[a]).0 != (#[trigger] kept@[b]).0,
            decreases n - i,
        {
            let e = self.entries[i];
            let ghost pre_kept = kept@;
            if e.0 != c {
                proof {
                    assert forall|a: int, b: int|
                        0 <= a < b < pre_kept.push(e).len() implies (#[trigger] pre_kept.push(
                        e,
                    )[a]).0 != (#[trigger] pre_kept.push(e)[b]).0 by {
                        if b < pre_kept.len() {
                        } else {
                            let ja = choose|ja: int|
                                0 <= ja < i && #[trigger] old(self).entries@[ja] == pre_kept[a];
                            assert(old(self).entries@[i as int] == e);
                            if old(self).entries@[ja].0 == e.0 {
                                assert(false);
                            }
                        }
                    }
                }
                kept.push(e);
            }
            proof {
                assert forall|j: int|
                    0 <= j < i + 1 implies ((#[trigger] self.entries@[j]).0 == c
                    || kept@.contains(self.entries@[j])) by {
                    if j < i {
                        if self.entries@[j].0 != c {
                            let jj = choose|jj: int|
                                0 <= jj < pre_kept.len() && #[trigger] pre_kept[jj]
                                    == self.entries@[j];
                            assert(kept@[jj] == self.entries@[j]);
                        }
                    } else {
                        if self.entries@[j].0 != c {
                            assert(kept@[kept@.len() - 1] == self.entries@[j]);
                        }
                    }
                }
            }
            i = i + 1;
        }
        let ghost kp = kept@;
        kept.push((c, line));
        self.entries = kept;
        proof {
            let olds = old(self).entries@;
            let news = self.entries@;
            let oldm = mark_map_of(olds);
            let newm = mark_map_of(news);
            assert(news.drop_last() =~= kp);
            assert(newm == mark_map_of(kp).insert(c, line));
            assert forall|a: int, b: int|
                0 <= a < b < news.len() implies (#[trigger] news[a]).0 != (#[trigger] news[b]).0 by {
                if b < kp.len() {
                    assert(news[a] == kp[a] && news[b] == kp[b]);
                } else {
                    assert(news[b] == (c, line));
                    assert(news[a] == kp[a]);
                }
            }
            assert forall|k: char| #[trigger]
                newm.contains_key(k) == oldm.insert(c, line).contains_key(k) by {
                lemma_mark_map_contains(kp, k);
                lemma_mark_map_contains(olds, k);
                lemma_mark_map_contains(news, k);
                if k != c {
                    if oldm.contains_key(k) {
                        let j = choose|j: int| 0 <= j < olds.len() && #[trigger] olds[j].0 == k;
                        assert(kp.contains(olds[j]));
                        let jj = choose|jj: int|
                            0 <= jj < kp.len() && #[trigger] kp[jj] == olds[j];
                        assert(news[jj].0 == k);
                    }
                    if newm.contains_key(k) {
                        let j = choose|j: int| 0 <= j < news.len() && #[trigger] news[j].0 == k;
                        assert(j < kp.len());
                        assert(news[j] == kp[j]);
                        let jo = choose|jo: int|
                            0 <= jo < olds.len() && #[trigger] olds[jo] == kp[j];
                        assert(olds[jo].0 == k);
                    }
                } else {
                    assert(news[news.len() - 1].0 == c);
                }
            }
            assert forall|k: char|
                newm.contains_key(k) && oldm.insert(c, line).contains_key(k) implies #[trigger]
                newm[k] == oldm.insert(c, line)[k] by {
                if k == c {
                    vstd::map::axiom_map_insert_same::<char, usize>(mark_map_of(kp), c, line);
                    vstd::map::axiom_map_insert_same::<char, usize>(oldm, c, line);
                } else {
                    lemma_mark_map_contains(news, k);
                    let j = choose|j: int| 0 <= j < news.len() && #[trigger] news[j].0 == k;
                    lemma_mark_map_unique(news, j);
                    assert(j < kp.len());
                    assert(news[j] == kp[j]);
                    let jo = choose|jo: int| 0 <= jo < olds.len() && #[trigger] olds[jo] == kp[j];
                    lemma_mark_map_unique(olds, jo);
                }
            }
            assert(newm =~= oldm.insert(c, line));
        }
    }

    /// The line recorded under `c`, if any.
    pub fn get(&self, c: char) -> (r: Option<usize>)
        requires
            self.wf(),
        ensures
            r == if self@.contains_key(c) {
                Some(self@[c])
            } else {
                Option::<usize>::None
            },
    {
        let n = self.entries.len();
        let mut i: usize = 0;
        while i < n
            invariant
                self.wf(),
                n == self.entries@.len(),
                i <= n,
                forall|k: int| 0 <= k < i ==> (#[trigger] self.entries@[k]).0 != c,
            decreases n - i,
        {
            if self.entries[i].0 == c {
                proof {
                    lemma_mark_map_unique(self.entries@, i as int);
                }
                return Some(self.entries[i].1);
            }
            i = i + 1;
        }
        proof {
            lemma_mark_map_contains(self.entries@, c);
        }
        None
    }
}

} // verus!
