//! Handles of entities.

use vstd::prelude::*;

verus! {

/// The handle of an entity: its index in the world that owns it. Two
/// worlds number their entities independently.
#[derive(Clone, Copy, PartialEq, Eq, Structural, PartialOrd, Ord, Hash, Debug)]
pub struct Entity {
    id: usize,
}

impl Entity {
    /// The handle of the entity with index `id`.
    pub fn with_id(id: usize) -> (entity: Entity)
        ensures
            entity.spec_id() == id,
    {
        Entity { id }
    }

    /// The index of the entity.
    pub closed spec fn spec_id(&self) -> usize {
        self.id
    }

    /// The index of the entity.
    #[verifier::when_used_as_spec(spec_id)]
    pub fn id(&self) -> (id: usize)
        ensures
            id == self.spec_id(),
    {
        self.id
    }
}

impl Default for Entity {
    fn default() -> (entity: Entity)
        ensures
            entity.id() == 0,
    {
        Entity { id: 0 }
    }
}

/// An entity is nothing but its index.
pub proof fn lemma_entity_is_its_id(a: Entity, b: Entity)
    requires
        a.id() == b.id(),
    ensures
        a == b,
{
}

/// The indices of a list of entities.
pub open spec fn ids(entities: Seq<Entity>) -> Seq<usize> {
    Seq::new(entities.len(), |i: int| entities[i].id())
}

} // verus!
