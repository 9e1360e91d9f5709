//! Systems: the read-only functions that a tick runs over the entities.

use vstd::prelude::*;
use crate::game::entity::{Change, ChangeView, Entity, EntityView};

verus! {

/// What a system handed back, as a value.
pub open spec fn outcome(out: Option<Change>) -> Option<ChangeView> {
    match out {
        Some(change) => Some(change@),
        None => None,
    }
}

/// A system that looks at one entity at a time.
///
/// It reads the entity and may ask for one change to it. It cannot write: the
/// change is applied by the tick, after every system has run.
pub trait System {
    /// What the system may hand back for an entity in a given state. A system
    /// that does not say may hand back anything.
    open spec fn produces(&self, entity: EntityView, out: Option<ChangeView>) -> bool {
        true
    }

    fn execute(&self, entity: &Entity) -> (out: Option<Change>)
        ensures
            self.produces(entity@, outcome(out)),
    ;
}

/// A system that looks at an entity together with each of the others.
///
/// The change it asks for is one to `entity`, never to `other`.
pub trait PairSystem {
    /// What the system may hand back for a pair of entities in given states.
    open spec fn produces(
        &self,
        entity: EntityView,
        other: EntityView,
        out: Option<ChangeView>,
    ) -> bool {
        true
    }

    fn execute(&self, entity: &Entity, other: &Entity) -> (out: Option<Change>)
        ensures
            self.produces(entity@, other@, outcome(out)),
    ;
}

/// A system as it is registered with the simulation.
pub enum Registered {
    Single(Box<dyn System>),
    Pair(Box<dyn PairSystem>),
}

} // verus!
