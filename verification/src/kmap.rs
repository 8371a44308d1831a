//! A small map backed by an association list.
//!
//! Keys are compared by their views; the list never holds two entries whose
//! keys share a view. The map's view is the mathematical `Map` from key views
//! to values, which is what every contract in this crate speaks of. The group
//! and user managers expect only hundreds of entries, so linear scans are the
//! intended access path.

use vstd::prelude::*;

verus! {

/// A key of a [`KMap`]: duplicated and compared by its view.
pub trait MapKey: View + Sized {
    fn key_eq(&self, other: &Self) -> (r: bool)
        ensures
            r == (self@ == other@),
    ;

    fn dup(&self) -> (r: Self)
        ensures
            r@ == self@,
    ;
}

/// The map denoted by an association list, later entries winning.
pub open spec fn map_of<K: MapKey, V>(s: Seq<(K, V)>) -> Map<<K as View>::V, V>
    decreases s.len(),
{
    if s.len() == 0 {
        Map::empty()
    } else {
        map_of(s.drop_last()).insert(s.last().0@, s.last().1)
    }
}

pub open spec fn distinct_keys<K: MapKey, V>(s: Seq<(K, V)>) -> bool {
    forall|i: int, j: int| 0 <= i < j < s.len() ==> s[i].0@ != s[j].0@
}

proof fn lemma_map_of_facts<K: MapKey, V>(s: Seq<(K, V)>)
    requires
        distinct_keys(s),
    ensures
        map_of(s).dom().finite(),
        map_of(s).dom().len() == s.len(),
        forall|i: int| #![trigger s[i]]
            0 <= i < s.len() ==> map_of(s).dom().contains(s[i].0@) && map_of(s)[s[i].0@] == s[i].1,
        forall|k: <K as View>::V| #[trigger]
            map_of(s).dom().contains(k) ==> exists|i: int| 0 <= i < s.len() && s[i].0@ == k,
    decreases s.len(),
{
    if s.len() > 0 {
        let d = s.drop_last();
        lemma_map_of_facts(d);
        assert(forall|i: int| 0 <= i < d.len() ==> d[i] == s[i]);
        let lastk = s.last().0@;
        assert(!map_of(d).dom().contains(lastk)) by {
            if map_of(d).dom().contains(lastk) {
                let i = choose|i: int| 0 <= i < d.len() && d[i].0@ == lastk;
                assert(s[i].0@ == s[s.len() - 1].0@);
            }
        }
        assert forall|k: <K as View>::V| #[trigger]
            map_of(s).dom().contains(k) implies exists|i: int| 0 <= i < s.len() && s[i].0@ == k by {
            if k == lastk {
                assert(s[s.len() - 1].0@ == k);
            } else {
                let i = choose|i: int| 0 <= i < d.len() && d[i].0@ == k;
                assert(s[i].0@ == k);
            }
        }
    }
}

proof fn lemma_map_of_remove<K: MapKey, V>(s: Seq<(K, V)>, i: int)
    requires
        distinct_keys(s),
        0 <= i < s.len(),
    ensures
        distinct_keys(s.remove(i)),
        map_of(s.remove(i)) == map_of(s).remove(s[i].0@),
    decreases s.len(),
{
    lemma_map_of_facts(s);
    let r = s.remove(i);
    assert(distinct_keys(r)) by {
        assert forall|p: int, q: int| 0 <= p < q < r.len() implies r[p].0@ != r[q].0@ by {
            let p0 = if p < i { p } else { p + 1 };
            let q0 = if q < i { q } else { q + 1 };
            assert(r[p] == s[p0] && r[q] == s[q0]);
        }
    }
    if i == s.len() - 1 {
        let d = s.drop_last();
        assert(r =~= d);
        lemma_map_of_facts(d);
        assert(!map_of(d).dom().contains(s[i].0@)) by {
            if map_of(d).dom().contains(s[i].0@) {
                let j = choose|j: int| 0 <= j < d.len() && d[j].0@ == s[i].0@;
                assert(s[j].0@ == s[i].0@);
            }
        }
        assert(map_of(s.remove(i)) =~= map_of(s).remove(s[i].0@));
    } else {
        let d = s.drop_last();
        assert(distinct_keys(d));
        lemma_map_of_remove(d, i);
        assert(r.drop_last() =~= d.remove(i));
        assert(r.last() == s.last());
        assert(map_of(r) == map_of(d.remove(i)).insert(s.last().0@, s.last().1));
        assert(s[i].0@ != s.last().0@);
        assert(map_of(s.remove(i)) =~= map_of(s).remove(s[i].0@));
    }
}

/// Association-list map keyed by key views.
#[derive(Debug)]
pub struct KMap<K: MapKey, V> {
    entries: Vec<(K, V)>,
}

impl<K: MapKey, V> View for KMap<K, V> {
    type V = Map<<K as View>::V, V>;

    closed spec fn view(&self) -> Map<<K as View>::V, V> {
        map_of(self.entries@)
    }
}

impl<K: MapKey, V> KMap<K, V> {
    /// Well-formedness: no two entries share a key view. Constructors
    /// establish it and every method preserves it.
    pub closed spec fn wf(&self) -> bool {
        distinct_keys(self.entries@)
    }

    /// The views of the keys, in storage order.
    pub closed spec fn key_seq(&self) -> Seq<<K as View>::V> {
        self.entries@.map_values(|e: (K, V)| e.0@)
    }

    /// The values, in storage order.
    pub closed spec fn val_seq(&self) -> Seq<V> {
        self.entries@.map_values(|e: (K, V)| e.1)
    }

    /// How the storage order relates to the map view. The body is ghost; the
    /// call only makes the listed facts available to the caller.
    pub fn observe(&self)
        requires
            self.wf(),
        ensures
            self.key_seq().len() == self.val_seq().len(),
            forall|i: int, j: int| 0 <= i < j < self.key_seq().len()
                ==> self.key_seq()[i] != self.key_seq()[j],
            forall|i: int| #![trigger self.key_seq()[i]]
                0 <= i < self.key_seq().len()
                ==> self@.dom().contains(self.key_seq()[i])
                    && self@[self.key_seq()[i]] == self.val_seq()[i],
            forall|k: <K as View>::V| #[trigger]
                self@.dom().contains(k)
                ==> exists|i: int| 0 <= i < self.key_seq().len() && self.key_seq()[i] == k,
            self@.dom().finite(),
            self@.dom().len() == self.key_seq().len(),
    {
        proof {
            lemma_map_of_facts(self.entries@);
            assert forall|k: <K as View>::V| #[trigger]
                self@.dom().contains(k)
                implies exists|i: int| 0 <= i < self.key_seq().len() && self.key_seq()[i] == k by {
                let i = choose|i: int| 0 <= i < self.entries@.len() && self.entries@[i].0@ == k;
                assert(self.key_seq()[i] == k);
            }
        }
    }

    pub fn new() -> (r: KMap<K, V>)
        ensures
            r.wf(),
            r@ == Map::<<K as View>::V, V>::empty(),
            r.key_seq() == Seq::<<K as View>::V>::empty(),
    {
        let r = KMap { entries: Vec::new() };
        proof {
            assert(r.key_seq() =~= Seq::<<K as View>::V>::empty());
        }
        r
    }

    pub fn count(&self) -> (r: usize)
        ensures
            r == self.key_seq().len(),
    {
        self.entries.len()
    }

    pub fn entry_at(&self, i: usize) -> (r: (&K, &V))
        requires
            self.wf(),
            i < self.key_seq().len(),
        ensures
            r.0@ == self.key_seq()[i as int],
            *r.1 == self.val_seq()[i as int],
            self@.dom().contains(r.0@),
            self@[r.0@] == *r.1,
    {
        proof {
            lemma_map_of_facts(self.entries@);
        }
        let e = &self.entries[i];
        (&e.0, &e.1)
    }

    /// Index of the entry whose key view is `k@`, if the key is present.
    fn find(&self, k: &K) -> (r: Option<usize>)
        requires
            self.wf(),
        ensures
            match r {
                Some(i) => i < self.key_seq().len() && self.key_seq()[i as int] == k@,
                None => !self@.dom().contains(k@),
            },
    {
        let n = self.entries.len();
        let mut i: usize = 0;
        while i < n
            invariant
                n == self.entries@.len(),
                i <= n,
                self.key_seq() == self.entries@.map_values(|e: (K, V)| e.0@),
                forall|j: int| 0 <= j < i ==> self.entries@[j].0@ != k@,
            decreases n - i,
        {
            if self.entries[i].0.key_eq(k) {
                assert(self.key_seq()[i as int] == k@);
                return Some(i);
            }
            i += 1;
        }
        proof {
            lemma_map_of_facts(self.entries@);
            if self@.dom().contains(k@) {
                let j = choose|j: int| 0 <= j < self.entries@.len() && self.entries@[j].0@ == k@;
                assert(self.entries@[j].0@ == k@);
            }
        }
        None
    }

    pub fn contains_key(&self, k: &K) -> (r: bool)
        requires
            self.wf(),
        ensures
            r == self@.dom().contains(k@),
    {
        match self.find(k) {
            Some(i) => {
                proof {
                    lemma_map_of_facts(self.entries@);
                    assert(self.entries@[i as int].0@ == k@);
                }
                true
            },
            None => false,
        }
    }

    pub fn get<'a>(&'a self, k: &K) -> (r: Option<&'a V>)
        requires
            self.wf(),
        ensures
            match r {
                Some(v) => self@.dom().contains(k@) && self@[k@] == *v,
                None => !self@.dom().contains(k@),
            },
    {
        match self.find(k) {
            Some(i) => {
                proof {
                    lemma_map_of_facts(self.entries@);
                    assert(self.entries@[i as int].0@ == k@);
                }
                Some(&self.entries[i].1)
            },
            None => None,
        }
    }

    pub fn insert(&mut self, k: K, v: V)
        requires
            old(self).wf(),
        ensures
            final(self).wf(),
            final(self)@ == old(self)@.insert(k@, v),
    {
        proof {
            lemma_map_of_facts(self.entries@);
        }
        let ghost s0 = self.entries@;
        match self.find(&k) {
            Some(i) => {
                proof {
                    lemma_map_of_remove(s0, i as int);
                }
                self.entries.remove(i);
            },
            None => {},
        }
        let ghost s1 = self.entries@;
        self.entries.push((k, v));
        proof {
            assert(self.entries@.drop_last() =~= s1);
            assert(distinct_keys(self.entries@)) by {
                lemma_map_of_facts(s1);
                if exists|j: int| 0 <= j < s1.len() && s1[j].0@ == k@ {
                    let j = choose|j: int| 0 <= j < s1.len() && s1[j].0@ == k@;
                    assert(map_of(s1).dom().contains(k@));
                }
            }
            assert(map_of(self.entries@) =~= map_of(s0).insert(k@, v));
        }
    }

    pub fn remove(&mut self, k: &K) -> (r: Option<V>)
        requires
            old(self).wf(),
        ensures
            final(self).wf(),
            final(self)@ == old(self)@.remove(k@),
            match r {
                Some(v) => old(self)@.dom().contains(k@) && old(self)@[k@] == v,
                None => !old(self)@.dom().contains(k@),
            },
    {
        proof {
            lemma_map_of_facts(self.entries@);
        }
        let ghost s0 = self.entries@;
        match self.find(k) {
            Some(i) => {
                proof {
                    lemma_map_of_remove(s0, i as int);
                }
                let e = self.entries.remove(i);
                Some(e.1)
            },
            None => {
                proof {
                    assert(map_of(s0) =~= map_of(s0).remove(k@));
                }
                None
            },
        }
    }

    /// Duplicates of all keys, in storage order.
    pub fn keys(&self) -> (r: Vec<K>)
        requires
            self.wf(),
        ensures
            r@.map_values(|k: K| k@) == self.key_seq(),
    {
        let n = self.entries.len();
        let mut r: Vec<K> = Vec::new();
        let mut i: usize = 0;
        while i < n
            invariant
                n == self.entries@.len(),
                i <= n,
                r@.len() == i,
                self.key_seq() == self.entries@.map_values(|e: (K, V)| e.0@),
                forall|j: int| 0 <= j < i ==> r@.map_values(|k: K| k@)[j] == self.key_seq()[j],
            decreases n - i,
        {
            r.push(self.entries[i].0.dup());
            i += 1;
        }
        proof {
            assert(r@.map_values(|k: K| k@) =~= self.key_seq());
        }
        r
    }
}

} // verus!
