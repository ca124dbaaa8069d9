//! A small map from string keys to string values, kept as a list of pairs.

use vstd::prelude::*;
use crate::text::same_text;

verus! {

/// The map that a list of pairs describes; where a key occurs twice, its first pair counts.
pub open spec fn pairs_map(s: Seq<(String, String)>) -> Map<Seq<char>, Seq<char>>
    decreases s.len(),
{
    if s.len() == 0 {
        Map::empty()
    } else {
        pairs_map(s.drop_first()).insert(s[0].0@, s[0].1@)
    }
}

pub open spec fn keys_distinct(s: Seq<(String, String)>) -> bool {
    forall|i: int, j: int| 0 <= i < j < s.len() ==> s[i].0@ != s[j].0@
}

pub proof fn lemma_pairs_map_domain(s: Seq<(String, String)>, k: Seq<char>)
    ensures
        pairs_map(s).dom().contains(k) <==> exists|i: int| 0 <= i < s.len() && s[i].0@ == k,
    decreases s.len(),
{
    if s.len() > 0 {
        lemma_pairs_map_domain(s.drop_first(), k);
        if pairs_map(s).dom().contains(k) && s[0].0@ != k {
            let i = choose|i: int| 0 <= i < s.drop_first().len() && s.drop_first()[i].0@ == k;
            assert(s[i + 1].0@ == k);
        }
        if exists|i: int| 0 <= i < s.len() && s[i].0@ == k {
            let i = choose|i: int| 0 <= i < s.len() && s[i].0@ == k;
            if i > 0 {
                assert(s.drop_first()[i - 1].0@ == k);
            }
        }
    }
}

pub proof fn lemma_pairs_map_value(s: Seq<(String, String)>, i: int)
    requires
        0 <= i < s.len(),
        forall|j: int| 0 <= j < i ==> s[j].0@ != s[i].0@,
    ensures
        pairs_map(s).dom().contains(s[i].0@),
        pairs_map(s)[s[i].0@] == s[i].1@,
    decreases s.len(),
{
    if i > 0 {
        lemma_pairs_map_value(s.drop_first(), i - 1);
    }
}

pub proof fn lemma_pairs_map_push(s: Seq<(String, String)>, x: (String, String))
    requires
        !pairs_map(s).dom().contains(x.0@),
    ensures
        pairs_map(s.push(x)) == pairs_map(s).insert(x.0@, x.1@),
    decreases s.len(),
{
    if s.len() == 0 {
        assert(s.push(x).drop_first() =~= s);
    } else {
        assert(s.push(x).drop_first() =~= s.drop_first().push(x));
        lemma_pairs_map_push(s.drop_first(), x);
        assert(pairs_map(s.push(x)) =~= pairs_map(s).insert(x.0@, x.1@));
    }
}

pub proof fn lemma_pairs_map_update(s: Seq<(String, String)>, i: int, x: (String, String))
    requires
        0 <= i < s.len(),
        s[i].0@ == x.0@,
        forall|j: int| 0 <= j < i ==> s[j].0@ != x.0@,
    ensures
        pairs_map(s.update(i, x)) == pairs_map(s).insert(x.0@, x.1@),
    decreases s.len(),
{
    if i == 0 {
        assert(s.update(i, x).drop_first() =~= s.drop_first());
        assert(pairs_map(s.update(i, x)) =~= pairs_map(s).insert(x.0@, x.1@));
    } else {
        assert(s.update(i, x).drop_first() =~= s.drop_first().update(i - 1, x));
        lemma_pairs_map_update(s.drop_first(), i - 1, x);
        assert(pairs_map(s.update(i, x)) =~= pairs_map(s).insert(x.0@, x.1@));
    }
}

pub proof fn lemma_pairs_map_same(a: Seq<(String, String)>, b: Seq<(String, String)>)
    requires
        a.len() == b.len(),
        forall|j: int| 0 <= j < a.len() ==> #[trigger] a[j].0@ == b[j].0@ && a[j].1@ == b[j].1@,
    ensures
        pairs_map(a) == pairs_map(b),
        keys_distinct(b) ==> keys_distinct(a),
    decreases a.len(),
{
    if a.len() > 0 {
        assert forall|j: int| 0 <= j < a.drop_first().len() implies #[trigger] a.drop_first()[j].0@
            == b.drop_first()[j].0@ && a.drop_first()[j].1@ == b.drop_first()[j].1@ by {
            assert(a[j + 1].0@ == b[j + 1].0@);
        }
        lemma_pairs_map_same(a.drop_first(), b.drop_first());
    }
    if keys_distinct(b) {
        assert forall|i: int, j: int| 0 <= i < j < a.len() implies a[i].0@ != a[j].0@ by {
            assert(a[i].0@ == b[i].0@);
            assert(a[j].0@ == b[j].0@);
        }
    }
}

/// String keys mapped to string values. No key occurs twice.
#[derive(Debug)]
pub struct StringMap {
    entries: Vec<(String, String)>,
}

impl View for StringMap {
    type V = Map<Seq<char>, Seq<char>>;

    closed spec fn view(&self) -> Map<Seq<char>, Seq<char>> {
        pairs_map(self.entries@)
    }
}

impl StringMap {
    #[verifier::type_invariant]
    closed spec fn wf(self) -> bool {
        keys_distinct(self.entries@)
    }

    /// The list of pairs, read in storage order.
    pub closed spec fn pair_list(self) -> Seq<(String, String)> {
        self.entries@
    }

    pub fn new() -> (m: StringMap)
        ensures
            m@ == Map::<Seq<char>, Seq<char>>::empty(),
    {
        StringMap { entries: Vec::new() }
    }

    /// The position of `key` among the pairs, if it is there.
    fn position(&self, key: &str) -> (r: Option<usize>)
        ensures
            match r {
                Some(i) => i < self.entries@.len() && self.entries@[i as int].0@ == key@ && (forall|
                    j: int,
                | 0 <= j < i ==> self.entries@[j].0@ != key@),
                None => forall|j: int|
                    0 <= j < self.entries@.len() ==> self.entries@[j].0@ != key@,
            },
    {
        let mut i: usize = 0;
        while i < self.entries.len()
            invariant
                i <= self.entries@.len(),
                forall|j: int| 0 <= j < i ==> self.entries@[j].0@ != key@,
            decreases self.entries@.len() - i,
        {
            if same_text(self.entries[i].0.as_str(), key) {
                return Some(i);
            }
            i = i + 1;
        }
        None
    }

    /// The value stored under `key`.
    pub fn get(&self, key: &str) -> (r: Option<String>)
        ensures
            match r {
                Some(v) => self@.dom().contains(key@) && self@[key@] == v@,
                None => !self@.dom().contains(key@),
            },
    {
        proof {
            lemma_pairs_map_domain(self.entries@, key@);
        }
        match self.position(key) {
            Some(i) => {
                proof {
                    lemma_pairs_map_value(self.entries@, i as int);
                }
                Some(self.entries[i].1.clone())
            },
            None => None,
        }
    }

    /// Stores `value` under `key`, replacing what was there.
    pub fn insert(&mut self, key: String, value: String)
        ensures
            final(self)@ == old(self)@.insert(key@, value@),
    {
        proof {
            use_type_invariant(&*self);
            lemma_pairs_map_domain(self.entries@, key@);
        }
        let found = self.position(key.as_str());
        let mut entries: Vec<(String, String)> = Vec::new();
        std::mem::swap(&mut entries, &mut self.entries);
        let ghost x = (key, value);
        match found {
            Some(i) => {
                proof {
                    lemma_pairs_map_update(entries@, i as int, x);
                    assert forall|a: int, b: int|
                        0 <= a < b < entries@.len() implies entries@.update(i as int, x)[a].0@
                        != entries@.update(i as int, x)[b].0@ by {}
                }
                entries.set(i, (key, value));
            },
            None => {
                proof {
                    lemma_pairs_map_push(entries@, x);
                }
                entries.push((key, value));
            },
        }
        self.entries = entries;
    }

    /// Whether nothing is stored.
    pub fn is_empty(&self) -> (r: bool)
        ensures
            r == (self@ == Map::<Seq<char>, Seq<char>>::empty()),
    {
        if self.entries.len() == 0 {
            assert(self@ =~= Map::<Seq<char>, Seq<char>>::empty());
            true
        } else {
            assert(self@.dom().contains(self.entries@[0].0@));
            false
        }
    }

    /// A copy holding the same pairs.
    pub fn duplicate(&self) -> (r: StringMap)
        ensures
            r@ == self@,
    {
        proof {
            use_type_invariant(self);
        }
        let mut entries: Vec<(String, String)> = Vec::new();
        let mut i: usize = 0;
        while i < self.entries.len()
            invariant
                i <= self.entries@.len(),
                entries@.len() == i,
                keys_distinct(self.entries@),
                forall|j: int|
                    0 <= j < i ==> #[trigger] entries@[j].0@ == self.entries@[j].0@
                        && entries@[j].1@ == self.entries@[j].1@,
            decreases self.entries@.len() - i,
        {
            let k = self.entries[i].0.clone();
            let v = self.entries[i].1.clone();
            entries.push((k, v));
            i = i + 1;
        }
        proof {
            lemma_pairs_map_same(entries@, self.entries@);
        }
        StringMap { entries }
    }

    /// The stored pairs, each key once.
    pub fn pairs(&self) -> (r: &Vec<(String, String)>)
        ensures
            r@ == self.pair_list(),
            pairs_map(r@) == self@,
            keys_distinct(r@),
    {
        proof {
            use_type_invariant(self);
        }
        &self.entries
    }
}

} // verus!
