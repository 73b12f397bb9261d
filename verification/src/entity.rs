//! Entity identities.

use vstd::prelude::*;

verus! {

/// Identifies one entity of a world.
///
/// The scheduler and the storages only compare ids; how ids are minted is
/// the world's business.
#[derive(Clone, Copy, PartialEq, Eq, Structural, Hash, Debug)]
pub struct EntityId {
    /// The entity's slot.
    pub index: usize,
}

impl EntityId {
    /// Wraps a raw slot.
    pub fn new(index: usize) -> (r: EntityId)
        ensures
            r.index == index,
    {
        EntityId { index }
    }
}

} // verus!
