//! A small string-to-string map with a mathematical view.
use vstd::prelude::*;

use crate::text::{owned, str_eq};

verus! {

// ------------------------------------------------------------------------------------------
// Pairs read as a map
// ------------------------------------------------------------------------------------------
/// The map that a list of (key, value) pairs stands for; a later pair for
/// the same key overrides an earlier one.
pub open spec fn pairs_map(s: Seq<(String, String)>) -> Map<Seq<char>, Seq<char>>
    decreases s.len(),
{
    if s.len() == 0 {
        Map::empty()
    } else {
        pairs_map(s.drop_last()).insert(s.last().0@, s.last().1@)
    }
}

/// The pairs whose key is not `key`.
pub open spec fn without_key(s: Seq<(String, String)>, key: Seq<char>) -> Seq<(String, String)>
    decreases s.len(),
{
    if s.len() == 0 {
        s
    } else {
        let rest = without_key(s.drop_last(), key);
        if s.last().0@ == key {
            rest
        } else {
            rest.push(s.last())
        }
    }
}

proof fn lemma_without_key(s: Seq<(String, String)>, key: Seq<char>)
    ensures
        pairs_map(without_key(s, key)) == pairs_map(s).remove(key),
    decreases s.len(),
{
    if s.len() > 0 {
        let t = s.drop_last();
        lemma_without_key(t, key);
        let rest = without_key(t, key);
        if s.last().0@ == key {
            assert(pairs_map(s).remove(key) =~= pairs_map(t).remove(key));
        } else {
            assert(rest.push(s.last()).drop_last() =~= rest);
            assert(pairs_map(s).remove(key) =~= pairs_map(t).remove(key).insert(
                s.last().0@,
                s.last().1@,
            ));
        }
    }
}

proof fn lemma_pairs_lookup(s: Seq<(String, String)>, key: Seq<char>, j: int)
    requires
        -1 <= j < s.len(),
        forall|i: int| j < i < s.len() ==> #[trigger] s[i].0@ != key,
        j >= 0 ==> s[j].0@ == key,
    ensures
        j >= 0 ==> pairs_map(s).dom().contains(key) && pairs_map(s)[key] == s[j].1@,
        j < 0 ==> !pairs_map(s).dom().contains(key),
    decreases s.len(),
{
    if s.len() > 0 && j < s.len() - 1 {
        let t = s.drop_last();
        assert forall|i: int| j < i < t.len() implies #[trigger] t[i].0@ != key by {
            assert(t[i] == s[i]);
        }
        if j >= 0 {
            assert(t[j] == s[j]);
        }
        lemma_pairs_lookup(t, key, j);
    }
}

/// A small map from strings to strings, kept as a list of pairs (the pet →
/// persona bindings of the configuration, a credential store in memory).
#[derive(Debug)]
pub struct StringMap {
    pairs: Vec<(String, String)>,
}

impl View for StringMap {
    type V = Map<Seq<char>, Seq<char>>;

    closed spec fn view(&self) -> Map<Seq<char>, Seq<char>> {
        pairs_map(self.pairs@)
    }
}

impl StringMap {
    /// The empty map.
    pub fn new() -> (r: Self)
        ensures
            r@ == Map::<Seq<char>, Seq<char>>::empty(),
    {
        StringMap { pairs: Vec::new() }
    }

    /// The map of a list of pairs, in order (a later pair for the same key
    /// wins).
    pub fn from_pairs(pairs: Vec<(String, String)>) -> (r: Self)
        ensures
            r@ == pairs_map(pairs@),
    {
        StringMap { pairs }
    }

    /// The pairs, to write back.
    pub fn pairs(&self) -> (r: &Vec<(String, String)>)
        ensures
            pairs_map(r@) == self@,
    {
        &self.pairs
    }

    /// The value stored under `key`.
    pub fn get(&self, key: &str) -> (r: Option<String>)
        ensures
            r is Some <==> self@.dom().contains(key@),
            r matches Some(p) ==> p@ == self@[key@],
    {
        let mut i: usize = self.pairs.len();
        while i > 0
            invariant
                i <= self.pairs@.len(),
                forall|k: int| i <= k < self.pairs@.len() ==> #[trigger] self.pairs@[k].0@ != key@,
            decreases i,
        {
            if str_eq(self.pairs[i - 1].0.as_str(), key) {
                proof {
                    lemma_pairs_lookup(self.pairs@, key@, i - 1);
                }
                return Some(self.pairs[i - 1].1.clone());
            }
            i = i - 1;
        }
        proof {
            lemma_pairs_lookup(self.pairs@, key@, -1);
        }
        None
    }

    /// Drop the entry of `key`.
    pub fn remove(&mut self, key: &str)
        ensures
            final(self)@ == old(self)@.remove(key@),
    {
        let mut kept: Vec<(String, String)> = Vec::new();
        let mut i: usize = 0;
        assert(kept@ =~= without_key(self.pairs@.subrange(0, 0), key@));
        while i < self.pairs.len()
            invariant
                i <= self.pairs@.len(),
                kept@ == without_key(self.pairs@.subrange(0, i as int), key@),
            decreases self.pairs.len() - i,
        {
            let sub = Ghost(self.pairs@.subrange(0, i + 1));
            assert(sub@.drop_last() =~= self.pairs@.subrange(0, i as int));
            if !str_eq(self.pairs[i].0.as_str(), key) {
                kept.push((self.pairs[i].0.clone(), self.pairs[i].1.clone()));
            }
            i = i + 1;
        }
        assert(self.pairs@.subrange(0, self.pairs@.len() as int) =~= self.pairs@);
        proof {
            lemma_without_key(self.pairs@, key@);
        }
        self.pairs = kept;
    }

    /// Store `value` under `key`.
    pub fn insert(&mut self, key: &str, value: &str)
        ensures
            final(self)@ == old(self)@.insert(key@, value@),
    {
        self.remove(key);
        let ghost before = self.pairs@;
        self.pairs.push((owned(key), owned(value)));
        assert(self.pairs@.drop_last() =~= before);
        assert(final(self)@ =~= old(self)@.remove(key@).insert(key@, value@));
    }
}

} // verus!
