//! An insertion-ordered map from strings to strings.
//!
//! Keys are unique; inserting an existing key replaces its value in place.

use vstd::prelude::*;
use crate::text::str_eq;

verus! {

/// Whether no two pairs share a key.
pub open spec fn keys_unique(s: Seq<(Seq<char>, Seq<char>)>) -> bool {
    forall|i: int, j: int| 0 <= i < s.len() && 0 <= j < s.len() && i != j ==> s[i].0 != s[j].0
}

/// The map that a sequence of pairs denotes; a later pair wins over an earlier one.
pub open spec fn pairs_to_map(s: Seq<(Seq<char>, Seq<char>)>) -> Map<Seq<char>, Seq<char>>
    decreases s.len(),
{
    if s.len() == 0 {
        Map::empty()
    } else {
        pairs_to_map(s.drop_last()).insert(s.last().0, s.last().1)
    }
}

/// Position of key `k` among the pairs, if present.
pub open spec fn key_position(s: Seq<(Seq<char>, Seq<char>)>, k: Seq<char>) -> Option<int> {
    if exists|i: int| 0 <= i < s.len() && s[i].0 == k {
        Some(choose|i: int| 0 <= i < s.len() && s[i].0 == k)
    } else {
        None
    }
}

/// The pairs after setting `k` to `v`: replaced in place, or appended.
pub open spec fn pairs_insert(s: Seq<(Seq<char>, Seq<char>)>, k: Seq<char>, v: Seq<char>) -> Seq<
    (Seq<char>, Seq<char>),
> {
    match key_position(s, k) {
        Some(i) => s.update(i, (k, v)),
        None => s.push((k, v)),
    }
}

pub proof fn lemma_pairs_to_map_dom(s: Seq<(Seq<char>, Seq<char>)>, k: Seq<char>)
    ensures
        pairs_to_map(s).contains_key(k) <==> exists|i: int| 0 <= i < s.len() && s[i].0 == k,
    decreases s.len(),
{
    if s.len() > 0 {
        lemma_pairs_to_map_dom(s.drop_last(), k);
        if pairs_to_map(s.drop_last()).contains_key(k) {
            let i = choose|i: int| 0 <= i < s.drop_last().len() && s.drop_last()[i].0 == k;
            assert(s[i].0 == k);
        }
        if exists|i: int| 0 <= i < s.len() && s[i].0 == k {
            let i = choose|i: int| 0 <= i < s.len() && s[i].0 == k;
            if i < s.len() - 1 {
                assert(s.drop_last()[i].0 == k);
            }
        }
    }
}

pub proof fn lemma_pairs_to_map_at(s: Seq<(Seq<char>, Seq<char>)>, i: int)
    requires
        keys_unique(s),
        0 <= i < s.len(),
    ensures
        pairs_to_map(s).contains_key(s[i].0),
        pairs_to_map(s)[s[i].0] == s[i].1,
    decreases s.len(),
{
    lemma_pairs_to_map_dom(s, s[i].0);
    if i < s.len() - 1 {
        assert(keys_unique(s.drop_last()));
        lemma_pairs_to_map_at(s.drop_last(), i);
        assert(s.drop_last()[i] == s[i]);
    }
}

pub proof fn lemma_pairs_insert(s: Seq<(Seq<char>, Seq<char>)>, k: Seq<char>, v: Seq<char>)
    requires
        keys_unique(s),
    ensures
        keys_unique(pairs_insert(s, k, v)),
        pairs_to_map(pairs_insert(s, k, v)) == pairs_to_map(s).insert(k, v),
{
    let t = pairs_insert(s, k, v);
    match key_position(s, k) {
        Some(p) => {
            assert(keys_unique(t));
        },
        None => {
            assert(keys_unique(t));
        },
    }
    assert forall|x: Seq<char>| #[trigger] pairs_to_map(t).contains_key(x) <==> pairs_to_map(
        s,
    ).insert(k, v).contains_key(x) by {
        lemma_pairs_to_map_dom(t, x);
        lemma_pairs_to_map_dom(s, x);
        if x != k && exists|i: int| 0 <= i < s.len() && s[i].0 == x {
            let i = choose|i: int| 0 <= i < s.len() && s[i].0 == x;
            assert(t[i].0 == x);
        }
        if exists|i: int| 0 <= i < t.len() && t[i].0 == x {
            let i = choose|i: int| 0 <= i < t.len() && t[i].0 == x;
            if x != k {
                assert(s[i].0 == x);
            }
        }
        if x == k {
            match key_position(s, k) {
                Some(p) => { assert(t[p].0 == k); },
                None => { assert(t[s.len() as int].0 == k); },
            }
        }
    }
    assert forall|x: Seq<char>| #[trigger] pairs_to_map(t).contains_key(x) implies pairs_to_map(
        t,
    )[x] == pairs_to_map(s).insert(k, v)[x] by {
        lemma_pairs_to_map_dom(t, x);
        let i = choose|i: int| 0 <= i < t.len() && t[i].0 == x;
        lemma_pairs_to_map_at(t, i);
        if x != k {
            assert(s[i] == t[i]);
            lemma_pairs_to_map_at(s, i);
        }
    }
    assert(pairs_to_map(t) =~= pairs_to_map(s).insert(k, v));
}

/// A map from strings to strings that remembers insertion order.
#[derive(Debug)]
pub struct StringMap {
    entries: Vec<(String, String)>,
}

impl View for StringMap {
    type V = Map<Seq<char>, Seq<char>>;

    open spec fn view(&self) -> Map<Seq<char>, Seq<char>> {
        pairs_to_map(self.pairs())
    }
}

impl StringMap {
    /// The pairs held, in insertion order.
    pub closed spec fn pairs(&self) -> Seq<(Seq<char>, Seq<char>)> {
        self.entries@.map_values(|p: (String, String)| (p.0@, p.1@))
    }

    #[verifier::type_invariant]
    spec fn unique(self) -> bool {
        keys_unique(self.pairs())
    }

    /// The empty map.
    pub fn new() -> (m: Self)
        ensures
            m.pairs() == Seq::<(Seq<char>, Seq<char>)>::empty(),
            m@ == Map::<Seq<char>, Seq<char>>::empty(),
    {
        let m = StringMap { entries: Vec::new() };
        assert(m.pairs() =~= Seq::<(Seq<char>, Seq<char>)>::empty());
        m
    }

    /// Number of keys.
    pub fn len(&self) -> (n: usize)
        ensures
            n == self.pairs().len(),
            keys_unique(self.pairs()),
    {
        proof {
            use_type_invariant(self);
        }
        self.entries.len()
    }

    /// Whether the map holds no key.
    pub fn is_empty(&self) -> (b: bool)
        ensures
            b == (self.pairs().len() == 0),
            b == (self@ == Map::<Seq<char>, Seq<char>>::empty()),
    {
        proof {
            use_type_invariant(self);
            if self.pairs().len() > 0 {
                lemma_pairs_to_map_at(self.pairs(), 0);
            }
            if self.pairs().len() == 0 {
                assert(self@ =~= Map::<Seq<char>, Seq<char>>::empty());
            }
        }
        self.entries.len() == 0
    }

    /// The key and value at position `i` in insertion order.
    pub fn entry(&self, i: usize) -> (r: (&String, &String))
        requires
            i < self.pairs().len(),
        ensures
            (r.0@, r.1@) == self.pairs()[i as int],
            keys_unique(self.pairs()),
            self@.contains_key(r.0@),
            self@[r.0@] == r.1@,
    {
        proof {
            use_type_invariant(self);
            lemma_pairs_to_map_at(self.pairs(), i as int);
        }
        let p = &self.entries[i];
        (&p.0, &p.1)
    }

    /// Position of `key`, if present.
    pub fn position(&self, key: &str) -> (r: Option<usize>)
        ensures
            match r {
                Some(i) => i < self.pairs().len() && self.pairs()[i as int].0 == key@,
                None => !self@.contains_key(key@),
            },
            r is Some <==> self@.contains_key(key@),
            keys_unique(self.pairs()),
    {
        proof {
            use_type_invariant(self);
            lemma_pairs_to_map_dom(self.pairs(), key@);
        }
        let n = self.entries.len();
        let mut i: usize = 0;
        while i < n
            invariant
                n == self.pairs().len(),
                i <= n,
                forall|j: int| 0 <= j < i ==> self.pairs()[j].0 != key@,
                keys_unique(self.pairs()),
                self@.contains_key(key@) <==> exists|j: int|
                    0 <= j < self.pairs().len() && self.pairs()[j].0 == key@,
            decreases n - i,
        {
            if str_eq(self.entries[i].0.as_str(), key) {
                return Some(i);
            }
            i = i + 1;
        }
        None
    }

    /// Whether `key` is present.
    pub fn contains_key(&self, key: &str) -> (b: bool)
        ensures
            b == self@.contains_key(key@),
    {
        self.position(key).is_some()
    }

    /// The value of `key`, if present.
    pub fn get(&self, key: &str) -> (r: Option<&String>)
        ensures
            match r {
                Some(v) => self@.contains_key(key@) && self@[key@] == v@,
                None => !self@.contains_key(key@),
            },
    {
        match self.position(key) {
            Some(i) => {
                proof {
                    lemma_pairs_to_map_at(self.pairs(), i as int);
                }
                Some(&self.entries[i].1)
            },
            None => None,
        }
    }

    /// Set `key` to `value`, replacing an existing value in place.
    pub fn insert(&mut self, key: String, value: String)
        ensures
            final(self).pairs() == pairs_insert(old(self).pairs(), key@, value@),
            final(self)@ == old(self)@.insert(key@, value@),
    {
        proof {
            use_type_invariant(&*self);
            lemma_pairs_insert(self.pairs(), key@, value@);
            lemma_pairs_to_map_dom(self.pairs(), key@);
        }
        let ghost old_pairs = self.pairs();
        let pos = self.position(key.as_str());
        let mut entries: Vec<(String, String)> = Vec::new();
        std::mem::swap(&mut entries, &mut self.entries);
        assert(entries@.map_values(|p: (String, String)| (p.0@, p.1@)) == old_pairs);
        match pos {
            Some(i) => {
                proof {
                    let j = key_position(old_pairs, key@)->0;
                    assert(old_pairs[j].0 == key@);
                    assert(i == j);
                }
                entries.set(i, (key, value));
            },
            None => {
                entries.push((key, value));
            },
        }
        assert(entries@.map_values(|p: (String, String)| (p.0@, p.1@)) =~= pairs_insert(
            old_pairs,
            key@,
            value@,
        ));
        self.entries = entries;
    }
}

} // verus!
