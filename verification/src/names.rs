//! Name-keyed tables: a map and a set keyed by identifiers.
//!
//! A later insertion of a key replaces the earlier one, as in a hash map.
use crate::text::str_eq;
use vstd::prelude::*;

verus! {

/// The value most recently stored for key `k` among `s`, if any.
pub open spec fn assoc_get<V>(s: Seq<(String, V)>, k: Seq<char>) -> Option<V>
    decreases s.len(),
{
    if s.len() == 0 {
        None
    } else if s.last().0@ == k {
        Some(s.last().1)
    } else {
        assoc_get(s.drop_last(), k)
    }
}

proof fn lemma_assoc_get_some<V>(s: Seq<(String, V)>, k: Seq<char>)
    requires
        assoc_get(s, k) is Some,
    ensures
        exists|i: int| 0 <= i < s.len() && s[i].0@ == k,
    decreases s.len(),
{
    if s.last().0@ != k {
        lemma_assoc_get_some(s.drop_last(), k);
        let i = choose|i: int| 0 <= i < s.drop_last().len() && s.drop_last()[i].0@ == k;
        assert(s[i].0@ == k);
    } else {
        assert(s[s.len() - 1].0@ == k);
    }
}

/// A map from names to values.
pub struct NameMap<V> {
    entries: Vec<(String, V)>,
}

impl<V> View for NameMap<V> {
    type V = Map<Seq<char>, V>;

    closed spec fn view(&self) -> Map<Seq<char>, V> {
        Map::new(
            |k: Seq<char>| assoc_get(self.entries@, k) is Some,
            |k: Seq<char>| assoc_get(self.entries@, k).unwrap(),
        )
    }
}

impl<V> NameMap<V> {
    pub fn new() -> (r: Self)
        ensures
            r@ == Map::<Seq<char>, V>::empty(),
    {
        let r = NameMap { entries: Vec::new() };
        assert(r@ =~= Map::<Seq<char>, V>::empty());
        r
    }

    /// Stores `v` under `k`, replacing any earlier value.
    pub fn insert(&mut self, k: String, v: V)
        ensures
            final(self)@ == old(self)@.insert(k@, v),
    {
        let ghost kk = k@;
        self.entries.push((k, v));
        proof {
            assert(self.entries@.drop_last() == old(self).entries@);
            assert(self@ =~= old(self)@.insert(kk, v));
        }
    }

    /// The value stored under `k`, if any.
    pub fn get(&self, k: &str) -> (r: Option<&V>)
        ensures
            match r {
                Some(v) => self@.contains_key(k@) && self@[k@] == *v,
                None => !self@.contains_key(k@),
            },
    {
        let mut i = self.entries.len();
        assert(self.entries@.take(i as int) =~= self.entries@);
        while i > 0
            invariant
                i <= self.entries.len(),
                assoc_get(self.entries@, k@) == assoc_get(self.entries@.take(i as int), k@),
            decreases i,
        {
            let ghost t = self.entries@.take(i as int);
            assert(t.drop_last() =~= self.entries@.take(i - 1));
            if str_eq(self.entries[i - 1].0.as_str(), k) {
                return Some(&self.entries[i - 1].1);
            }
            i -= 1;
        }
        None
    }

    /// Only finitely many names have a value.
    pub proof fn lemma_dom_finite(&self)
        ensures
            self@.dom().finite(),
    {
        let keys = self.entries@.map_values(|p: (String, V)| p.0@).to_set();
        vstd::seq_lib::seq_to_set_is_finite(self.entries@.map_values(|p: (String, V)| p.0@));
        assert forall|k: Seq<char>| self@.dom().contains(k) implies keys.contains(k) by {
            lemma_assoc_get_some(self.entries@, k);
            let i = choose|i: int| 0 <= i < self.entries@.len() && self.entries@[i].0@ == k;
            assert(self.entries@.map_values(|p: (String, V)| p.0@)[i] == k);
        }
        vstd::set_lib::lemma_set_subset_finite(keys, self@.dom());
    }

    pub fn contains_key(&self, k: &str) -> (r: bool)
        ensures
            r == self@.contains_key(k@),
    {
        self.get(k).is_some()
    }
}

/// A set of names.
pub struct NameSet {
    names: Vec<String>,
}

impl View for NameSet {
    type V = Set<Seq<char>>;

    closed spec fn view(&self) -> Set<Seq<char>> {
        Set::new(|k: Seq<char>| exists|i: int| 0 <= i < self.names.len() && self.names@[i]@ == k)
    }
}

impl NameSet {
    pub fn new() -> (r: Self)
        ensures
            r@ == Set::<Seq<char>>::empty(),
    {
        let r = NameSet { names: Vec::new() };
        assert(r@ =~= Set::<Seq<char>>::empty());
        r
    }

    pub fn insert(&mut self, k: String)
        ensures
            final(self)@ == old(self)@.insert(k@),
    {
        let ghost kk = k@;
        self.names.push(k);
        proof {
            assert forall|x: Seq<char>| final(self)@.contains(x) <==> old(self)@.insert(kk).contains(x) by {
                if x == kk {
                    assert(self.names@[self.names.len() - 1]@ == kk);
                }
                if old(self)@.contains(x) {
                    let i = choose|i: int| 0 <= i < old(self).names.len() && old(self).names@[i]@ == x;
                    assert(self.names@[i]@ == x);
                }
                if final(self)@.contains(x) && x != kk {
                    let i = choose|i: int| 0 <= i < self.names.len() && self.names@[i]@ == x;
                    assert(old(self).names@[i]@ == x);
                }
            }
            assert(final(self)@ =~= old(self)@.insert(kk));
        }
    }

    pub fn contains(&self, k: &str) -> (r: bool)
        ensures
            r == self@.contains(k@),
    {
        let mut i: usize = 0;
        while i < self.names.len()
            invariant
                i <= self.names.len(),
                forall|j: int| 0 <= j < i ==> self.names@[j]@ != k@,
            decreases self.names.len() - i,
        {
            if str_eq(self.names[i].as_str(), k) {
                return true;
            }
            i += 1;
        }
        false
    }
}

} // verus!
