//! Entity identifiers and per-component storage.
//!
//! An `Entity` is a generation-stamped index: the index may be reused
//! after a destroy, but only together with a fresh generation, so a stale
//! identifier never passes the liveness check.  A `Storage<T>` associates
//! a component value of type `T` with entity indices; a component is
//! attached to at most one index slot at a time and is never observed for
//! an index that does not hold it (`at` is `None` there).

use vstd::prelude::*;

verus! {

/// Generation-stamped entity identifier, stable across a frame and
/// invalidated on destroy.
#[derive(Clone, Copy, PartialEq, Eq, Structural, Debug)]
pub struct Entity {
    pub index: usize,
    pub generation: u64,
}

/// Associates entity indices with component values of one type.
pub struct Storage<T> {
    pub data: Vec<Option<T>>,
}

impl<T> Storage<T> {
    /// The component held at index `i`, `None` where nothing is attached.
    pub open spec fn at(&self, i: int) -> Option<T> {
        if 0 <= i < self.data@.len() {
            self.data@[i]
        } else {
            None
        }
    }

    pub open spec fn contains_spec(&self, i: int) -> bool {
        self.at(i) is Some
    }

    pub fn new() -> (r: Self)
        ensures
            forall|i: int| r.at(i) is None,
    {
        Storage { data: Vec::new() }
    }

    pub fn contains(&self, i: usize) -> (r: bool)
        ensures
            r == self.contains_spec(i as int),
    {
        i < self.data.len() && self.data[i].is_some()
    }

    pub fn get(&self, i: usize) -> (r: Option<&T>)
        ensures
            match r {
                Some(v) => self.at(i as int) == Some(*v),
                None => self.at(i as int) is None,
            },
    {
        if i < self.data.len() {
            self.data[i].as_ref()
        } else {
            None
        }
    }

    /// Attach `v` at index `i`, replacing anything attached there.
    pub fn insert(&mut self, i: usize, v: T)
        requires
            i < usize::MAX,
        ensures
            final(self).at(i as int) == Some(v),
            forall|j: int| j != i ==> final(self).at(j) == old(self).at(j),
            final(self).data@.len() == if i + 1 > old(self).data@.len() {
                i + 1 as int
            } else {
                old(self).data@.len() as int
            },
    {
        while self.data.len() <= i
            invariant
                i < usize::MAX,
                forall|j: int| #![auto] self.at(j) == old(self).at(j),
                old(self).data@.len() <= self.data@.len(),
                self.data@.len() <= i + 1 || self.data@.len() == old(self).data@.len(),
            decreases i + 1 - self.data.len(),
        {
            self.data.push(None);
        }
        self.data.set(i, Some(v));
        assert(forall|j: int| j != i ==> final(self).at(j) == old(self).at(j));
    }

    /// Move the component at index `i` out, leaving the slot empty.
    pub fn take(&mut self, i: usize) -> (r: Option<T>)
        ensures
            r == old(self).at(i as int),
            final(self).at(i as int) is None,
            forall|j: int| j != i ==> final(self).at(j) == old(self).at(j),
            final(self).data@.len() == old(self).data@.len(),
    {
        if i < self.data.len() {
            self.data[i].take()
        } else {
            None
        }
    }

    /// Detach whatever is attached at index `i`.
    pub fn remove(&mut self, i: usize)
        ensures
            final(self).at(i as int) is None,
            forall|j: int| j != i ==> final(self).at(j) == old(self).at(j),
            final(self).data@.len() == old(self).data@.len(),
    {
        if i < self.data.len() {
            self.data.set(i, None);
        }
    }
}

} // verus!
