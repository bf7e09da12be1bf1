//! A map from tokens to values: a hash map keyed by the token's number.

use std::collections::HashMap;
use vstd::prelude::*;
use vstd::std_specs::hash::*;
use vstd::std_specs::iter::IteratorSpec;

verus! {

broadcast use vstd::std_specs::hash::group_hash_axioms;

/// A map from tokens to values.
#[derive(Debug)]
pub struct Registry<V> {
    entries: HashMap<u64, V>,
}

impl<V> View for Registry<V> {
    type V = Map<u64, V>;

    closed spec fn view(&self) -> Map<u64, V> {
        self.entries@
    }
}

impl<V> Registry<V> {
    /// The map holds finitely many tokens.
    pub closed spec fn wf(&self) -> bool {
        self.entries@.dom().finite()
    }

    /// How many tokens are held.
    pub closed spec fn count(&self) -> nat {
        self.entries@.dom().len()
    }

    pub fn new() -> (r: Self)
        ensures
            r.wf(),
            r@ == Map::<u64, V>::empty(),
            r.count() == 0,
    {
        Registry { entries: HashMap::new() }
    }

    pub fn len(&self) -> (r: usize)
        ensures
            r == self.count(),
    {
        self.entries.len()
    }

    /// As many tokens are held as the map has keys.
    pub proof fn lemma_count(&self)
        requires
            self.wf(),
        ensures
            self@.dom().finite(),
            self@.dom().len() == self.count(),
    {
    }

    pub fn contains_key(&self, token: u64) -> (r: bool)
        requires
            self.wf(),
        ensures
            r == self@.contains_key(token),
    {
        self.entries.contains_key(&token)
    }

    pub fn get(&self, token: u64) -> (r: Option<&V>)
        requires
            self.wf(),
        ensures
            match r {
                Some(v) => self@.contains_key(token) && self@[token] == *v,
                None => !self@.contains_key(token),
            },
    {
        self.entries.get(&token)
    }

    /// Takes the value of `token` out of the map.
    pub fn remove(&mut self, token: u64) -> (r: Option<V>)
        requires
            old(self).wf(),
        ensures
            final(self).wf(),
            final(self)@ == old(self)@.remove(token),
            match r {
                Some(v) => old(self)@.contains_key(token) && old(self)@[token] == v && final(self).count() + 1 == old(self).count(),
                None => !old(self)@.contains_key(token) && final(self).count() == old(self).count(),
            },
    {
        let r = self.entries.remove(&token);
        assert(self.entries@ =~= old(self).entries@.remove(token));
        r
    }

    /// Maps `token` to `value`, in place of what it was mapped to, which is
    /// returned.
    pub fn insert(&mut self, token: u64, value: V) -> (r: Option<V>)
        requires
            old(self).wf(),
        ensures
            final(self).wf(),
            final(self)@ == old(self)@.insert(token, value),
            match r {
                Some(v) => old(self)@.contains_key(token) && old(self)@[token] == v && final(self).count() == old(self).count(),
                None => !old(self)@.contains_key(token) && final(self).count() == old(self).count() + 1,
            },
    {
        self.entries.insert(token, value)
    }

    /// The tokens that are held, each once, in no order that is promised.
    pub fn keys(&self) -> (r: Vec<u64>)
        requires
            self.wf(),
        ensures
            r@.len() == self.count(),
            r@.no_duplicates(),
            forall|k: u64| r@.contains(k) <==> self@.contains_key(k),
    {
        let mut out: Vec<u64> = Vec::new();
        let ghost held = self.entries.keys().remaining();
        for k in it: self.entries.keys()
            invariant
                it.seq() == held,
                out@.len() == it.index(),
                forall|i: int| 0 <= i < out@.len() ==> out@[i] == *it.seq()[i],
        {
            out.push(*k);
        }
        proof {
            assert(out@ =~= held.unref());
            assert forall|k: u64| out@.contains(k) <==> self@.contains_key(k) by {
                assert(held.unref().to_set().contains(k) <==> self@.dom().contains(k));
            }
        }
        out
    }
}

} // verus!
