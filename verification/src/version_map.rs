//! The version map: from a type identifier to the version number that the data
//! at hand was written with.

use vstd::prelude::*;

verus! {

/// What a map holds for `type_id`: its version number, or `None` where the map
/// has no entry, which stands for "the current version".
pub open spec fn lookup(entries: Map<Seq<char>, usize>, type_id: Seq<char>) -> Option<usize> {
    if entries.contains_key(type_id) {
        Some(entries[type_id])
    } else {
        None
    }
}

/// The pairs of `listing`, each taken by the view of its identifier.
pub open spec fn pairs_view(listing: Seq<(String, usize)>) -> Seq<(Seq<char>, usize)> {
    Seq::new(listing.len(), |i: int| (listing[i].0@, listing[i].1))
}

/// `listing` enumerates `entries`: every pair in it is an entry, every entry
/// occurs in it, and no identifier occurs twice.
pub open spec fn enumerates(listing: Seq<(Seq<char>, usize)>, entries: Map<Seq<char>, usize>) -> bool {
    &&& forall|i: int|
        0 <= i < listing.len() ==> #[trigger] entries.contains_key(listing[i].0)
            && entries[listing[i].0] == listing[i].1
    &&& forall|k: Seq<char>|
        entries.contains_key(k) ==> exists|i: int|
            0 <= i < listing.len() && (#[trigger] listing[i]).0 == k
    &&& forall|i: int, j: int|
        0 <= i < j < listing.len() ==> (#[trigger] listing[i]).0 != (#[trigger] listing[j]).0
}

/// What a list of pairs builds when each pair is recorded in turn.
pub open spec fn collected(pairs: Seq<(Seq<char>, usize)>) -> Map<Seq<char>, usize>
    decreases pairs.len(),
{
    if pairs.len() == 0 {
        Map::empty()
    } else {
        collected(pairs.drop_last()).insert(pairs.last().0, pairs.last().1)
    }
}

/// The enumeration capability of a version map.
pub trait VersionMapIter {
    /// The map's contents, from type identifier to version number.
    spec fn entries(&self) -> Map<Seq<char>, usize>;

    /// Lists every entry of the map once, in no particular order.
    fn iter(&self) -> (listing: Vec<(String, usize)>)
        ensures
            enumerates(pairs_view(listing@), self.entries()),
    ;
}

/// Maps the identifier of each versioned type to a version number.
pub trait VersionMap: Clone + Sync + VersionMapIter {
    /// The version number recorded for `type_id`, if any.
    fn get(&self, type_id: &str) -> (version: Option<usize>)
        ensures
            version == lookup(self.entries(), type_id@),
    ;
}

/// A version map kept as a list of pairs in which no identifier occurs twice.
pub struct DefaultVersionMap {
    pairs: Vec<(String, usize)>,
}

impl DefaultVersionMap {
    #[verifier::type_invariant]
    spec fn distinct_identifiers(self) -> bool {
        forall|i: int, j: int|
            0 <= i < j < self.pairs.len() ==> (#[trigger] self.pairs[i]).0@ != (
            #[trigger] self.pairs[j]).0@
    }

    /// The position of the pair for `type_id`, where the list has one.
    spec fn position(self, type_id: Seq<char>) -> int {
        choose|i: int| 0 <= i < self.pairs.len() && (#[trigger] self.pairs[i]).0@ == type_id
    }

    /// A map without entries.
    pub fn new() -> (map: Self)
        ensures
            map.entries() == Map::<Seq<char>, usize>::empty(),
    {
        let map = DefaultVersionMap { pairs: Vec::new() };
        assert(map.entries() =~= Map::<Seq<char>, usize>::empty());
        map
    }

    /// The map that the pairs build when they are recorded one after the
    /// other: of two pairs for one identifier the later one stays.
    pub fn from_pairs(pairs: Vec<(String, usize)>) -> (map: Self)
        ensures
            map.entries() == collected(pairs_view(pairs@)),
    {
        let ghost all = pairs_view(pairs@);
        let mut rest = pairs;
        let mut map = DefaultVersionMap::new();
        while rest.len() > 0
            invariant
                collected(all) == collected(pairs_view(rest@)).union_prefer_right(map.entries()),
            decreases rest.len(),
        {
            let ghost before = pairs_view(rest@);
            let ghost held = map.entries();
            if let Some((type_id, version)) = rest.pop() {
                assert(pairs_view(rest@) =~= before.drop_last());
                assert(before.last() == (type_id@, version));
                if !map.contains(type_id.as_str()) {
                    map.insert(type_id, version);
                }
                assert(collected(before).union_prefer_right(held) =~= collected(
                    before.drop_last(),
                ).union_prefer_right(map.entries()));
            }
        }
        assert(collected(all) =~= map.entries());
        map
    }

    /// Whether the map holds a version for `type_id`.
    pub fn contains(&self, type_id: &str) -> (held: bool)
        ensures
            held == self.entries().contains_key(type_id@),
    {
        self.get(type_id).is_some()
    }

    /// Records `version` for `type_id`, in place of what the map held for it.
    pub fn insert(&mut self, type_id: String, version: usize)
        ensures
            (*final(self)).entries() == (*old(self)).entries().insert(type_id@, version),
    {
        proof {
            use_type_invariant(&*self);
        }
        let ghost before = *self;
        let ghost key = type_id@;
        let mut taken = DefaultVersionMap::new();
        core::mem::swap(self, &mut taken);
        let mut pairs = taken.pairs;
        let mut i: usize = 0;
        while i < pairs.len() && pairs[i].0 != type_id
            invariant
                pairs == before.pairs,
                key == type_id@,
                0 <= i <= pairs.len(),
                forall|j: int| 0 <= j < i ==> (#[trigger] pairs[j]).0@ != key,
            decreases pairs.len() - i,
        {
            i += 1;
        }
        if i < pairs.len() {
            pairs.set(i, (type_id, version));
        } else {
            pairs.push((type_id, version));
        }
        assert forall|k: int, l: int| 0 <= k < l < pairs.len() implies (#[trigger] pairs[k]).0@ != (
        #[trigger] pairs[l]).0@ by {
            if l < before.pairs.len() {
                assert(before.pairs[k].0@ != before.pairs[l].0@);
            } else {
                assert(before.pairs[k].0@ != key);
            }
        }
        *self = DefaultVersionMap { pairs };
        proof {
            let after = *self;
            let goal = before.entries().insert(key, version);
            after.lemma_pair_is_entry(i as int);
            assert forall|k: Seq<char>| after.entries().contains_key(k) implies (
            #[trigger] goal.contains_key(k)) by {
                let p = after.position(k);
                if k != key {
                    assert(before.pairs[p].0@ == k);
                }
            }
            assert forall|k: Seq<char>| #[trigger] goal.contains_key(k) implies (
            after.entries().contains_key(k) && after.entries()[k] == goal[k]) by {
                if k != key {
                    let q = before.position(k);
                    before.lemma_pair_is_entry(q);
                    after.lemma_pair_is_entry(q);
                }
            }
            assert(after.entries() =~= goal);
        }
    }

    /// The pair at position `i` is the map's entry for its identifier.
    proof fn lemma_pair_is_entry(self, i: int)
        requires
            self.distinct_identifiers(),
            0 <= i < self.pairs.len(),
        ensures
            self.position(self.pairs[i].0@) == i,
            self.entries().contains_key(self.pairs[i].0@),
            self.entries()[self.pairs[i].0@] == self.pairs[i].1,
    {
        let p = self.position(self.pairs[i].0@);
        if p < i {
            assert(self.pairs[p].0@ != self.pairs[i].0@);
        } else if i < p {
            assert(self.pairs[i].0@ != self.pairs[p].0@);
        }
    }
}

impl Default for DefaultVersionMap {
    /// A map without entries.
    fn default() -> (map: Self)
        ensures
            map.entries() == Map::<Seq<char>, usize>::empty(),
    {
        DefaultVersionMap::new()
    }
}

impl VersionMapIter for DefaultVersionMap {
    closed spec fn entries(&self) -> Map<Seq<char>, usize> {
        Map::new(
            |k: Seq<char>|
                exists|i: int| 0 <= i < self.pairs.len() && (#[trigger] self.pairs[i]).0@ == k,
            |k: Seq<char>| self.pairs[self.position(k)].1,
        )
    }

    fn iter(&self) -> (listing: Vec<(String, usize)>) {
        proof {
            use_type_invariant(self);
        }
        let mut listing: Vec<(String, usize)> = Vec::new();
        let mut i: usize = 0;
        while i < self.pairs.len()
            invariant
                0 <= i <= self.pairs.len(),
                listing.len() == i,
                forall|j: int|
                    0 <= j < i ==> (#[trigger] listing[j]).0@ == self.pairs[j].0@ && listing[j].1
                        == self.pairs[j].1,
            decreases self.pairs.len() - i,
        {
            listing.push((self.pairs[i].0.clone(), self.pairs[i].1));
            i += 1;
        }
        proof {
            let shown = pairs_view(listing@);
            assert forall|j: int| 0 <= j < shown.len() implies #[trigger] self.entries().contains_key(
                shown[j].0,
            ) && self.entries()[shown[j].0] == shown[j].1 by {
                assert(listing[j].0@ == self.pairs[j].0@ && listing[j].1 == self.pairs[j].1);
                self.lemma_pair_is_entry(j);
            }
            assert forall|k: Seq<char>| self.entries().contains_key(k) implies exists|j: int|
                0 <= j < shown.len() && (#[trigger] shown[j]).0 == k by {
                let p = self.position(k);
                assert(listing[p].0@ == self.pairs[p].0@);
                assert(shown[p].0 == k);
            }
            assert forall|a: int, b: int| 0 <= a < b < shown.len() implies (#[trigger] shown[a]).0
                != (#[trigger] shown[b]).0 by {
                assert(listing[a].0@ == self.pairs[a].0@);
                assert(listing[b].0@ == self.pairs[b].0@);
                assert(self.pairs[a].0@ != self.pairs[b].0@);
            }
        }
        listing
    }
}

impl Clone for DefaultVersionMap {
    fn clone(&self) -> (copy: Self)
        ensures
            copy.entries() == self.entries(),
    {
        proof {
            use_type_invariant(self);
        }
        let mut pairs: Vec<(String, usize)> = Vec::new();
        let mut i: usize = 0;
        while i < self.pairs.len()
            invariant
                0 <= i <= self.pairs.len(),
                pairs.len() == i,
                forall|j: int| 0 <= j < i ==> #[trigger] pairs[j] == self.pairs[j],
            decreases self.pairs.len() - i,
        {
            pairs.push((self.pairs[i].0.clone(), self.pairs[i].1));
            i += 1;
        }
        assert(pairs@ =~= self.pairs@);
        DefaultVersionMap { pairs }
    }
}

impl VersionMap for DefaultVersionMap {
    fn get(&self, type_id: &str) -> (version: Option<usize>) {
        let wanted = type_id.to_owned();
        let mut i: usize = 0;
        while i < self.pairs.len()
            invariant
                0 <= i <= self.pairs.len(),
                wanted@ == type_id@,
                forall|j: int| 0 <= j < i ==> (#[trigger] self.pairs[j]).0@ != type_id@,
            decreases self.pairs.len() - i,
        {
            if self.pairs[i].0 == wanted {
                proof {
                    use_type_invariant(self);
                    self.lemma_pair_is_entry(i as int);
                }
                return Some(self.pairs[i].1);
            }
            i += 1;
        }
        None
    }
}

impl<'a, T: VersionMapIter> VersionMapIter for &'a T {
    open spec fn entries(&self) -> Map<Seq<char>, usize> {
        (**self).entries()
    }

    /// Lists what the map behind the borrow lists: the call is handed on.
    fn iter(&self) -> (listing: Vec<(String, usize)>)
        ensures
            call_ensures(<T as VersionMapIter>::iter, (*self,), listing),
    {
        (**self).iter()
    }
}

impl<'a, T: VersionMapIter> VersionMapIter for &'a mut T {
    open spec fn entries(&self) -> Map<Seq<char>, usize> {
        (**self).entries()
    }

    /// Lists what the map behind the borrow lists: the call is handed on, and
    /// the map stays as it was.
    fn iter(&self) -> (listing: Vec<(String, usize)>)
        ensures
            call_ensures(<T as VersionMapIter>::iter, (&*old(*self),), listing),
    {
        (**self).iter()
    }
}

impl<'a, T: VersionMap> VersionMap for &'a T {
    /// Holds what the map behind the borrow holds: the call is handed on.
    fn get(&self, type_id: &str) -> (version: Option<usize>)
        ensures
            call_ensures(<T as VersionMap>::get, (*self, type_id), version),
    {
        (**self).get(type_id)
    }
}

} // verus!
