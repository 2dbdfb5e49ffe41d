use vstd::prelude::*;
use std::collections::HashMap;
use crate::circle::Circle;

verus! {

broadcast use vstd::std_specs::hash::group_hash_axioms;

/// A mutable set of circles keyed by id, collected before one wrapping
/// computation. Adding a circle under an id that is already present
/// replaces the earlier circle: an id names at most one circle.
pub struct Scene {
    pub circles: HashMap<i32, Circle>,
}

impl Scene {
    /// An empty scene.
    pub fn new() -> (s: Self)
        ensures
            s.circles@ == Map::<i32, Circle>::empty(),
    {
        Scene { circles: HashMap::new() }
    }

    /// Adds `circle` under its id, replacing any circle already stored
    /// there.
    pub fn add_circle(&mut self, circle: Circle)
        ensures
            final(self).circles@ == old(self).circles@.insert(circle.id, circle),
    {
        self.circles.insert(circle.id, circle);
    }

    /// How many circles the scene holds.
    pub fn len(&self) -> (n: usize)
        ensures
            n == self.circles@.len(),
    {
        self.circles.len()
    }
}

} // verus!
