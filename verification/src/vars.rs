//! Named byte strings: the variables that a route captures from a path.

use crate::text::bytes_eq;
use vstd::prelude::*;

verus! {

/// The map that a list of bindings stands for: a later binding of a name
/// replaces an earlier one.
pub open spec fn bound(entries: Seq<(Vec<u8>, Vec<u8>)>) -> Map<Seq<u8>, Seq<u8>>
    decreases entries.len(),
{
    if entries.len() == 0 {
        Map::empty()
    } else {
        bound(entries.drop_last()).insert(entries.last().0@, entries.last().1@)
    }
}

/// A map from names to values, both byte strings.
#[derive(Debug)]
pub struct Vars {
    entries: Vec<(Vec<u8>, Vec<u8>)>,
}

impl View for Vars {
    type V = Map<Seq<u8>, Seq<u8>>;

    closed spec fn view(&self) -> Map<Seq<u8>, Seq<u8>> {
        bound(self.entries@)
    }
}

impl Vars {
    pub fn new() -> (r: Self)
        ensures
            r@ == Map::<Seq<u8>, Seq<u8>>::empty(),
    {
        Vars { entries: Vec::new() }
    }

    /// Binds `name` to `value`, in place of what `name` was bound to.
    pub fn insert(&mut self, name: Vec<u8>, value: Vec<u8>)
        ensures
            final(self)@ == old(self)@.insert(name@, value@),
    {
        let ghost before = self.entries@;
        self.entries.push((name, value));
        assert(self.entries@.drop_last() =~= before);
    }

    /// The value that `name` is bound to.
    pub fn get(&self, name: &[u8]) -> (r: Option<&Vec<u8>>)
        ensures
            match r {
                Some(v) => self@.contains_key(name@) && self@[name@] == v@,
                None => !self@.contains_key(name@),
            },
    {
        let mut i: usize = self.entries.len();
        assert(self.entries@.subrange(0, i as int) =~= self.entries@);
        while i > 0
            invariant
                i <= self.entries@.len(),
                bound(self.entries@).contains_key(name@) ==> bound(
                    self.entries@.subrange(0, i as int),
                ).contains_key(name@),
                bound(self.entries@).contains_key(name@) ==> bound(self.entries@)[name@] == bound(
                    self.entries@.subrange(0, i as int),
                )[name@],
            decreases i,
        {
            let ghost prefix = self.entries@.subrange(0, i as int);
            assert(prefix.drop_last() =~= self.entries@.subrange(0, i - 1));
            assert(prefix.last() == self.entries@[i - 1]);
            i -= 1;
            if bytes_eq(self.entries[i].0.as_slice(), name) {
                proof {
                    if !bound(self.entries@).contains_key(name@) {
                        lemma_bound_keeps(self.entries@, i as int + 1);
                    }
                }
                return Some(&self.entries[i].1);
            }
        }
        assert(self.entries@.subrange(0, 0) =~= Seq::empty());
        None
    }

    /// Whether nothing is bound.
    pub fn is_empty(&self) -> (r: bool)
        ensures
            r == (self@ == Map::<Seq<u8>, Seq<u8>>::empty()),
    {
        let r = self.entries.len() == 0;
        proof {
            if !r {
                assert(self@.contains_key(self.entries@.last().0@));
            }
        }
        r
    }

    /// Unbinds every name.
    pub fn clear(&mut self)
        ensures
            final(self)@ == Map::<Seq<u8>, Seq<u8>>::empty(),
    {
        self.entries.clear();
    }
}

/// A name bound by the first `k` bindings stays bound when more follow.
proof fn lemma_bound_keeps(entries: Seq<(Vec<u8>, Vec<u8>)>, k: int)
    requires
        0 <= k <= entries.len(),
    ensures
        forall|name: Seq<u8>|
            bound(entries.subrange(0, k)).contains_key(name) ==> #[trigger] bound(
                entries,
            ).contains_key(name),
    decreases entries.len() - k,
{
    if k == entries.len() {
        assert(entries.subrange(0, k) =~= entries);
    } else {
        lemma_bound_keeps(entries, k + 1);
        let next = entries.subrange(0, k + 1);
        assert(next.drop_last() =~= entries.subrange(0, k));
    }
}

} // verus!
