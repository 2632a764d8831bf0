//! Entity identifiers: a stable integer handle for a thing in the world.
use vstd::prelude::*;

verus! {

/// A unique entity identifier.
#[derive(Debug, Clone, Copy, PartialEq, Eq, Hash)]
pub struct Entity(pub usize);

impl Entity {
    /// Wrap an identifier. (In practice only the world container makes
    /// these.)
    pub fn new(id: usize) -> (e: Entity)
        ensures
            e.0 == id,
    {
        Entity(id)
    }

    /// The numeric identifier.
    pub fn id(&self) -> (r: usize)
        ensures
            r == self.0,
    {
        self.0
    }
}

} // verus!
