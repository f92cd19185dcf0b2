//! Collision handling on the server. The world's integrator moves bodies without contact
//! response, so there is nothing to resolve yet.
use vstd::prelude::*;

verus! {

pub struct CollisionSystem {}

impl CollisionSystem {
    pub fn new() -> (r: CollisionSystem) {
        CollisionSystem {  }
    }

    /// Resolves the contacts of the last step; there are none to resolve.
    pub fn handle_collisions(&mut self)
        ensures
            *final(self) == *old(self),
    {
    }
}

impl Default for CollisionSystem {
    fn default() -> (r: CollisionSystem) {
        CollisionSystem::new()
    }
}

} // verus!
