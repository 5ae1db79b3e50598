//! Small verified associative containers backed by vectors, keyed by strings
//! (or pairs of strings), with `Map` views. Linear search keeps the proofs
//! elementary; the stores the ledger needs stay small.

use vstd::prelude::*;

verus! {

/// Keys of `es` are pairwise distinct.
pub open spec fn unique_keys<V>(es: Seq<(String, V)>) -> bool {
    forall|i: int, j: int| 0 <= i < j < es.len() ==> (#[trigger] es[i]).0@ != (#[trigger] es[j]).0@
}

/// The map an entry list denotes (later entries win; with unique keys the
/// order is irrelevant).
pub open spec fn map_of<V>(es: Seq<(String, V)>) -> Map<Seq<char>, V>
    decreases es.len(),
{
    if es.len() == 0 {
        Map::empty()
    } else {
        map_of(es.drop_last()).insert(es.last().0@, es.last().1)
    }
}

pub proof fn lemma_map_of_domain<V>(es: Seq<(String, V)>, k: Seq<char>)
    ensures
        map_of(es).contains_key(k) <==> exists|i: int| 0 <= i < es.len() && (#[trigger] es[i]).0@ == k,
    decreases es.len(),
{
    if es.len() > 0 {
        lemma_map_of_domain(es.drop_last(), k);
        if map_of(es).contains_key(k) {
            if es.last().0@ == k {
                assert(es[es.len() - 1].0@ == k);
            } else {
                let i = choose|i: int| 0 <= i < es.drop_last().len() && (#[trigger] es.drop_last()[i]).0@ == k;
                assert(es[i].0@ == k);
            }
        } else {
            assert(forall|i: int| 0 <= i < es.len() - 1 ==> (#[trigger] es[i]).0@ == es.drop_last()[i].0@);
        }
    }
}

pub proof fn lemma_map_of_index<V>(es: Seq<(String, V)>, i: int)
    requires
        unique_keys(es),
        0 <= i < es.len(),
    ensures
        map_of(es).contains_key(es[i].0@),
        map_of(es)[es[i].0@] == es[i].1,
    decreases es.len(),
{
    if i == es.len() - 1 {
    } else {
        assert(unique_keys(es.drop_last())) by {
            assert(forall|a: int, b: int|
                0 <= a < b < es.len() - 1 ==> (#[trigger] es.drop_last()[a]).0@ != (
                #[trigger] es.drop_last()[b]).0@) by {
                assert(forall|a: int| 0 <= a < es.len() - 1 ==> es.drop_last()[a] == #[trigger] es[a]);
            }
        }
        assert(es.drop_last()[i] == es[i]);
        lemma_map_of_index(es.drop_last(), i);
        assert(es[i].0@ != es.last().0@);
    }
}

/// A map from strings to values.
pub struct StrMap<V> {
    pub entries: Vec<(String, V)>,
}

impl<V> StrMap<V> {
    pub open spec fn view(&self) -> Map<Seq<char>, V> {
        map_of(self.entries@)
    }

    pub open spec fn wf(&self) -> bool {
        unique_keys(self.entries@)
    }

    pub fn new() -> (r: Self)
        ensures
            r.wf(),
            r.view() == Map::<Seq<char>, V>::empty(),
            r.entries@.len() == 0,
    {
        StrMap { entries: Vec::new() }
    }

    pub fn len(&self) -> (r: usize)
        ensures
            r == self.entries@.len(),
    {
        self.entries.len()
    }

    pub fn entry_at(&self, i: usize) -> (r: &(String, V))
        requires
            i < self.entries@.len(),
        ensures
            *r == self.entries@[i as int],
    {
        &self.entries[i]
    }

    fn find_idx(&self, k: &String) -> (r: Option<usize>)
        ensures
            match r {
                Some(i) => i < self.entries@.len() && self.entries@[i as int].0@ == k@,
                None => forall|i: int|
                    0 <= i < self.entries@.len() ==> (#[trigger] self.entries@[i]).0@ != k@,
            },
    {
        let mut i: usize = 0;
        while i < self.entries.len()
            invariant
                0 <= i <= self.entries@.len(),
                forall|j: int| 0 <= j < i ==> (#[trigger] self.entries@[j]).0@ != k@,
            decreases self.entries@.len() - i,
        {
            if self.entries[i].0.eq(k) {
                return Some(i);
            }
            i = i + 1;
        }
        None
    }

    pub fn contains_key(&self, k: &String) -> (r: bool)
        ensures
            r == self.view().contains_key(k@),
    {
        let idx = self.find_idx(k);
        proof {
            lemma_map_of_domain(self.entries@, k@);
        }
        idx.is_some()
    }

    pub fn get(&self, k: &String) -> (r: Option<&V>)
        requires
            self.wf(),
        ensures
            match r {
                Some(v) => self.view().contains_key(k@) && *v == self.view()[k@],
                None => !self.view().contains_key(k@),
            },
    {
        proof {
            lemma_map_of_domain(self.entries@, k@);
        }
        match self.find_idx(k) {
            Some(i) => {
                proof {
                    lemma_map_of_index(self.entries@, i as int);
                }
                Some(&self.entries[i].1)
            },
            None => None,
        }
    }

    /// Remove and return the value under `k`, if any.
    pub fn remove(&mut self, k: &String) -> (r: Option<V>)
        requires
            old(self).wf(),
        ensures
            final(self).wf(),
            match r {
                Some(v) => old(self).view().contains_key(k@) && v == old(self).view()[k@]
                    && final(self).view() == old(self).view().remove(k@),
                None => !old(self).view().contains_key(k@) && *final(self) == *old(self),
            },
    {
        proof {
            lemma_map_of_domain(self.entries@, k@);
        }
        match self.find_idx(k) {
            Some(i) => {
                proof {
                    lemma_map_of_index(self.entries@, i as int);
                }
                let v = self.entries.remove(i);
                proof {
                    let es_old = old(self).entries@;
                    let es_new = self.entries@;
                    assert(unique_keys(es_new)) by {
                        assert(forall|a: int|
                            0 <= a < es_new.len() ==> #[trigger] es_new[a] == if a < i as int {
                                es_old[a]
                            } else {
                                es_old[a + 1]
                            });
                    }
                    lemma_remove_view(es_old, i as int);
                }
                Some(v.1)
            },
            None => None,
        }
    }

    /// Insert `v` under `k`, replacing any previous value.
    pub fn insert(&mut self, k: String, v: V)
        requires
            old(self).wf(),
        ensures
            final(self).wf(),
            final(self).view() == old(self).view().insert(k@, v),
    {
        let _prev = self.remove(&k);
        let ghost mid = self.entries@;
        let ghost midview = self.view();
        let ghost kview = k@;
        let ghost vg = v;
        proof {
            lemma_map_of_domain(mid, kview);
        }
        self.entries.push((k, v));
        proof {
            let es = self.entries@;
            assert(es.drop_last() =~= mid);
            assert(unique_keys(es)) by {
                assert(forall|a: int| 0 <= a < es.len() - 1 ==> #[trigger] es[a] == mid[a]);
                assert(forall|a: int| 0 <= a < es.len() - 1 ==> (#[trigger] es[a]).0@ != kview);
            }
            assert(map_of(es) == map_of(mid).insert(kview, vg));
            assert(map_of(mid).insert(kview, vg) =~= old(self).view().insert(kview, vg));
        }
    }
}

proof fn lemma_remove_view<V>(es: Seq<(String, V)>, i: int)
    requires
        unique_keys(es),
        0 <= i < es.len(),
    ensures
        map_of(es.remove(i)) == map_of(es).remove(es[i].0@),
    decreases es.len(),
{
    let k = es[i].0@;
    let removed = es.remove(i);
    assert(unique_keys(removed)) by {
        assert(forall|a: int|
            0 <= a < removed.len() ==> #[trigger] removed[a] == if a < i {
                es[a]
            } else {
                es[a + 1]
            });
    }
    assert forall|q: Seq<char>| map_of(removed).contains_key(q) == map_of(es).remove(
        k,
    ).contains_key(q) by {
        lemma_map_of_domain(removed, q);
        lemma_map_of_domain(es, q);
        if map_of(removed).contains_key(q) {
            let a = choose|a: int| 0 <= a < removed.len() && (#[trigger] removed[a]).0@ == q;
            let b = if a < i {
                a
            } else {
                a + 1
            };
            assert(es[b].0@ == q);
            assert(q != k);
        }
        if map_of(es).remove(k).contains_key(q) {
            let b = choose|b: int| 0 <= b < es.len() && (#[trigger] es[b]).0@ == q;
            assert(b != i);
            let a = if b < i {
                b
            } else {
                b - 1
            };
            assert(removed[a].0@ == q);
        }
    }
    assert forall|q: Seq<char>|
        map_of(removed).contains_key(q) implies #[trigger] map_of(removed)[q] == map_of(es).remove(
        k,
    )[q] by {
        lemma_map_of_domain(removed, q);
        let a = choose|a: int| 0 <= a < removed.len() && (#[trigger] removed[a]).0@ == q;
        lemma_map_of_index(removed, a);
        let b = if a < i {
            a
        } else {
            a + 1
        };
        assert(es[b].0@ == q);
        lemma_map_of_index(es, b);
    }
    assert(map_of(removed) =~= map_of(es).remove(k));
}

/// View of a pair-keyed entry.
pub open spec fn pkey<V>(e: ((String, String), V)) -> (Seq<char>, Seq<char>) {
    (e.0.0@, e.0.1@)
}

/// Keys of a pair-keyed entry list are pairwise distinct.
pub open spec fn unique_pair_keys<V>(es: Seq<((String, String), V)>) -> bool {
    forall|i: int, j: int|
        0 <= i < j < es.len() ==> pkey(#[trigger] es[i]) != pkey(#[trigger] es[j])
}

/// The map a pair-keyed entry list denotes.
pub open spec fn pair_map_of<V>(es: Seq<((String, String), V)>) -> Map<(Seq<char>, Seq<char>), V>
    decreases es.len(),
{
    if es.len() == 0 {
        Map::empty()
    } else {
        pair_map_of(es.drop_last()).insert(pkey(es.last()), es.last().1)
    }
}

pub proof fn lemma_pair_map_of_domain<V>(es: Seq<((String, String), V)>, k: (Seq<char>, Seq<char>))
    ensures
        pair_map_of(es).contains_key(k) <==> exists|i: int|
            0 <= i < es.len() && pkey(#[trigger] es[i]) == k,
    decreases es.len(),
{
    if es.len() > 0 {
        lemma_pair_map_of_domain(es.drop_last(), k);
        if pair_map_of(es).contains_key(k) {
            if pkey(es.last()) == k {
                assert(pkey(es[es.len() - 1]) == k);
            } else {
                let i = choose|i: int|
                    0 <= i < es.drop_last().len() && pkey(#[trigger] es.drop_last()[i]) == k;
                assert(pkey(es[i]) == k);
            }
        } else {
            assert(forall|i: int|
                0 <= i < es.len() - 1 ==> pkey(#[trigger] es[i]) == pkey(es.drop_last()[i]));
        }
    }
}

pub proof fn lemma_pair_map_of_index<V>(es: Seq<((String, String), V)>, i: int)
    requires
        unique_pair_keys(es),
        0 <= i < es.len(),
    ensures
        pair_map_of(es).contains_key(pkey(es[i])),
        pair_map_of(es)[pkey(es[i])] == es[i].1,
    decreases es.len(),
{
    if i == es.len() - 1 {
    } else {
        assert(unique_pair_keys(es.drop_last())) by {
            assert(forall|a: int| 0 <= a < es.len() - 1 ==> es.drop_last()[a] == #[trigger] es[a]);
        }
        assert(es.drop_last()[i] == es[i]);
        lemma_pair_map_of_index(es.drop_last(), i);
        assert(pkey(es[i]) != pkey(es.last()));
    }
}

/// A map keyed by a pair of strings.
pub struct PairMap<V> {
    pub entries: Vec<((String, String), V)>,
}

impl<V> PairMap<V> {
    pub open spec fn view(&self) -> Map<(Seq<char>, Seq<char>), V> {
        pair_map_of(self.entries@)
    }

    pub open spec fn wf(&self) -> bool {
        unique_pair_keys(self.entries@)
    }

    pub fn new() -> (r: Self)
        ensures
            r.wf(),
            r.view() == Map::<(Seq<char>, Seq<char>), V>::empty(),
            r.entries@.len() == 0,
    {
        PairMap { entries: Vec::new() }
    }

    pub fn len(&self) -> (r: usize)
        ensures
            r == self.entries@.len(),
    {
        self.entries.len()
    }

    pub fn entry_at(&self, i: usize) -> (r: &((String, String), V))
        requires
            i < self.entries@.len(),
        ensures
            *r == self.entries@[i as int],
    {
        &self.entries[i]
    }

    fn find_idx(&self, a: &String, b: &String) -> (r: Option<usize>)
        ensures
            match r {
                Some(i) => i < self.entries@.len() && pkey(self.entries@[i as int]) == (a@, b@),
                None => forall|i: int|
                    0 <= i < self.entries@.len() ==> pkey(#[trigger] self.entries@[i]) != (a@, b@),
            },
    {
        let mut i: usize = 0;
        while i < self.entries.len()
            invariant
                0 <= i <= self.entries@.len(),
                forall|j: int| 0 <= j < i ==> pkey(#[trigger] self.entries@[j]) != (a@, b@),
            decreases self.entries@.len() - i,
        {
            if self.entries[i].0.0.eq(a) && self.entries[i].0.1.eq(b) {
                return Some(i);
            }
            i = i + 1;
        }
        None
    }

    pub fn get(&self, a: &String, b: &String) -> (r: Option<&V>)
        requires
            self.wf(),
        ensures
            match r {
                Some(v) => self.view().contains_key((a@, b@)) && *v == self.view()[(a@, b@)],
                None => !self.view().contains_key((a@, b@)),
            },
    {
        proof {
            lemma_pair_map_of_domain(self.entries@, (a@, b@));
        }
        match self.find_idx(a, b) {
            Some(i) => {
                proof {
                    lemma_pair_map_of_index(self.entries@, i as int);
                }
                Some(&self.entries[i].1)
            },
            None => None,
        }
    }

    /// Remove and return the value under `(a, b)`, if any.
    pub fn remove(&mut self, a: &String, b: &String) -> (r: Option<V>)
        requires
            old(self).wf(),
        ensures
            final(self).wf(),
            match r {
                Some(v) => old(self).view().contains_key((a@, b@)) && v == old(self).view()[(
                    a@,
                    b@,
                )] && final(self).view() == old(self).view().remove((a@, b@)),
                None => !old(self).view().contains_key((a@, b@)) && *final(self) == *old(self),
            },
    {
        proof {
            lemma_pair_map_of_domain(self.entries@, (a@, b@));
        }
        match self.find_idx(a, b) {
            Some(i) => {
                proof {
                    lemma_pair_map_of_index(self.entries@, i as int);
                }
                let v = self.entries.remove(i);
                proof {
                    let es_old = old(self).entries@;
                    let es_new = self.entries@;
                    assert(unique_pair_keys(es_new)) by {
                        assert(forall|x: int|
                            0 <= x < es_new.len() ==> #[trigger] es_new[x] == if x < i as int {
                                es_old[x]
                            } else {
                                es_old[x + 1]
                            });
                    }
                    lemma_pair_remove_view(es_old, i as int);
                }
                Some(v.1)
            },
            None => None,
        }
    }

    /// Insert `v` under `(a, b)`, replacing any previous value.
    pub fn insert(&mut self, a: String, b: String, v: V)
        requires
            old(self).wf(),
        ensures
            final(self).wf(),
            final(self).view() == old(self).view().insert((a@, b@), v),
    {
        let _prev = self.remove(&a, &b);
        let ghost mid = self.entries@;
        let ghost midview = self.view();
        let ghost kview = (a@, b@);
        let ghost vg = v;
        proof {
            lemma_pair_map_of_domain(mid, kview);
        }
        self.entries.push(((a, b), v));
        proof {
            let es = self.entries@;
            assert(es.drop_last() =~= mid);
            assert(unique_pair_keys(es)) by {
                assert(forall|x: int| 0 <= x < es.len() - 1 ==> #[trigger] es[x] == mid[x]);
                assert(forall|x: int| 0 <= x < es.len() - 1 ==> pkey(#[trigger] es[x]) != kview);
            }
            assert(pair_map_of(es) == pair_map_of(mid).insert(kview, vg));
            assert(pair_map_of(mid).insert(kview, vg) =~= old(self).view().insert(kview, vg));
        }
    }
}

proof fn lemma_pair_remove_view<V>(es: Seq<((String, String), V)>, i: int)
    requires
        unique_pair_keys(es),
        0 <= i < es.len(),
    ensures
        pair_map_of(es.remove(i)) == pair_map_of(es).remove(pkey(es[i])),
    decreases es.len(),
{
    let k = pkey(es[i]);
    let removed = es.remove(i);
    assert(unique_pair_keys(removed)) by {
        assert(forall|a: int|
            0 <= a < removed.len() ==> #[trigger] removed[a] == if a < i {
                es[a]
            } else {
                es[a + 1]
            });
    }
    assert forall|q: (Seq<char>, Seq<char>)|
        pair_map_of(removed).contains_key(q) == pair_map_of(es).remove(k).contains_key(q) by {
        lemma_pair_map_of_domain(removed, q);
        lemma_pair_map_of_domain(es, q);
        if pair_map_of(removed).contains_key(q) {
            let a = choose|a: int| 0 <= a < removed.len() && pkey(#[trigger] removed[a]) == q;
            let b = if a < i {
                a
            } else {
                a + 1
            };
            assert(pkey(es[b]) == q);
            assert(q != k);
        }
        if pair_map_of(es).remove(k).contains_key(q) {
            let b = choose|b: int| 0 <= b < es.len() && pkey(#[trigger] es[b]) == q;
            assert(b != i);
            let a = if b < i {
                b
            } else {
                b - 1
            };
            assert(pkey(removed[a]) == q);
        }
    }
    assert forall|q: (Seq<char>, Seq<char>)|
        pair_map_of(removed).contains_key(q) implies #[trigger] pair_map_of(removed)[q]
        == pair_map_of(es).remove(k)[q] by {
        lemma_pair_map_of_domain(removed, q);
        let a = choose|a: int| 0 <= a < removed.len() && pkey(#[trigger] removed[a]) == q;
        lemma_pair_map_of_index(removed, a);
        let b = if a < i {
            a
        } else {
            a + 1
        };
        assert(pkey(es[b]) == q);
        lemma_pair_map_of_index(es, b);
    }
    assert(pair_map_of(removed) =~= pair_map_of(es).remove(k));
}

/// Membership of `k` in a vector of strings.
pub open spec fn str_in_seq(v: Seq<String>, k: Seq<char>) -> bool {
    exists|i: int| 0 <= i < v.len() && (#[trigger] v[i])@ == k
}

pub fn str_vec_contains(v: &Vec<String>, k: &String) -> (r: bool)
    ensures
        r == str_in_seq(v@, k@),
{
    let mut i: usize = 0;
    while i < v.len()
        invariant
            0 <= i <= v@.len(),
            forall|j: int| 0 <= j < i ==> (#[trigger] v@[j])@ != k@,
        decreases v@.len() - i,
    {
        if v[i].eq(k) {
            return true;
        }
        i = i + 1;
    }
    false
}

/// Membership of a pair of strings in a vector of pairs.
pub open spec fn pair_in_seq(v: Seq<(String, String)>, a: Seq<char>, b: Seq<char>) -> bool {
    exists|i: int| 0 <= i < v.len() && (#[trigger] v[i]).0@ == a && v[i].1@ == b
}

pub fn pair_vec_contains(v: &Vec<(String, String)>, a: &String, b: &String) -> (r: bool)
    ensures
        r == pair_in_seq(v@, a@, b@),
{
    let mut i: usize = 0;
    while i < v.len()
        invariant
            0 <= i <= v@.len(),
            forall|j: int| 0 <= j < i ==> !((#[trigger] v@[j]).0@ == a@ && v@[j].1@ == b@),
        decreases v@.len() - i,
    {
        if v[i].0.eq(a) && v[i].1.eq(b) {
            return true;
        }
        i = i + 1;
    }
    false
}

} // verus!
