//! Entities, and the deferred changes that are written into them.

use vstd::prelude::*;
use crate::game::component::{filed, rows_wf, Component, ComponentHolder, ComponentTable};
use crate::util::arena::ComponentArena;
use crate::util::arena_model::{ArenaError, ArenaView};
use crate::util::{encodes, Byteable};

verus! {

/// Why a change could not be written into an entity.
#[derive(Debug, Clone, Copy, PartialEq, Eq, Structural)]
pub enum ChangeError {
    /// The change was resolved before: its payload is gone.
    Spent,
    /// The arena refused the write.
    Arena(ArenaError),
}

impl ChangeError {
    /// The text of the error.
    pub open spec fn text(self) -> Seq<char> {
        match self {
            ChangeError::Spent => "Change has no data!"@,
            ChangeError::Arena(e) => e.text(),
        }
    }

    /// The error in words.
    pub fn message(&self) -> (r: String)
        ensures
            r@ == self.text(),
    {
        match self {
            ChangeError::Spent => "Change has no data!".to_string(),
            ChangeError::Arena(e) => e.message(),
        }
    }
}

/// A change as a value: the label it targets and, while it is pending, the
/// bytes it will write.
pub struct ChangeView {
    pub label: Seq<char>,
    pub payload: Option<Seq<u8>>,
}

impl ChangeView {
    /// The payload is still there.
    pub open spec fn pending(self) -> bool {
        self.payload is Some
    }

    /// The change after it was resolved.
    pub open spec fn spent(self) -> Self {
        ChangeView { label: self.label, payload: None }
    }

    /// What resolving the change against `arena` returns, and the arena it
    /// leaves: written in place on success, untouched on every failure.
    pub open spec fn resolve(self, arena: ArenaView) -> (Result<(), ChangeError>, ArenaView) {
        match self.payload {
            None => (Err(ChangeError::Spent), arena),
            Some(bytes) => match arena.insert_raw(bytes, self.label) {
                Ok(after) => (Ok(()), after),
                Err(e) => (Err(ChangeError::Arena(e)), arena),
            },
        }
    }
}

/// A mutation that a system asks for: a new value for one label of an entity.
///
/// A change is made pending, with its payload, and is resolved once; that takes
/// the payload out and leaves the change spent.
pub struct Change {
    label: String,
    data: Option<Vec<u8>>,
}

impl View for Change {
    type V = ChangeView;

    closed spec fn view(&self) -> ChangeView {
        ChangeView {
            label: self.label@,
            payload: match self.data {
                Some(bytes) => Some(bytes@),
                None => None,
            },
        }
    }
}

impl Change {
    /// A pending change that will write `change` under `label`.
    pub fn new<T: Byteable>(change: T, label: &str) -> (r: Self)
        ensures
            r@.label == label@,
            r@.payload is Some,
            encodes(change, r@.payload->0),
    {
        let bytes = change.into_bytes();
        Change { label: label.to_string(), data: Some(bytes) }
    }

    /// A pending change that will write `bytes` under `label`.
    pub fn from_raw(bytes: Vec<u8>, label: &str) -> (r: Self)
        ensures
            r@ == (ChangeView { label: label@, payload: Some(bytes@) }),
    {
        Change { label: label.to_string(), data: Some(bytes) }
    }

    /// The label this change targets.
    pub fn label(&self) -> (r: &str)
        ensures
            r@ == self@.label,
    {
        self.label.as_str()
    }

    /// Whether the payload is still there.
    pub fn is_pending(&self) -> (r: bool)
        ensures
            r == self@.pending(),
    {
        self.data.is_some()
    }

    /// Resolves the change against `arena`: takes the payload and writes it
    /// over the slot of the label. A spent change is refused.
    pub fn arena_insert(&mut self, arena: &mut ComponentArena) -> (r: Result<(), ChangeError>)
        ensures
            old(arena)@.wf(),
            final(arena)@.wf(),
            final(self)@ == old(self)@.spent(),
            (r, final(arena)@) == old(self)@.resolve(old(arena)@),
    {
        proof {
            use_type_invariant(&*arena);
        }
        match self.data.take() {
            None => Err(ChangeError::Spent),
            Some(bytes) => match arena.insert_raw(bytes.as_slice(), self.label.as_str()) {
                Ok(()) => Ok(()),
                Err(e) => Err(ChangeError::Arena(e)),
            },
        }
    }
}

/// An entity as a value: its identifier and the state of its arena.
pub struct EntityView {
    pub id: u64,
    pub arena: ArenaView,
}

impl EntityView {
    /// The arena is well formed.
    pub open spec fn wf(self) -> bool {
        self.arena.wf()
    }

    /// The entity after `change` was resolved against it.
    pub open spec fn resolve(self, change: ChangeView) -> EntityView {
        EntityView { id: self.id, arena: change.resolve(self.arena).1 }
    }
}

/// An identifier and the arena that holds the components filed under it.
pub struct Entity {
    id: u64,
    arena: ComponentArena,
}

impl View for Entity {
    type V = EntityView;

    closed spec fn view(&self) -> EntityView {
        EntityView { id: self.id, arena: self.arena@ }
    }
}

impl Entity {
    /// An entity without components.
    pub fn new(id: u64) -> (r: Self)
        ensures
            r@.wf(),
            r@ == (EntityView { id, arena: ArenaView::empty() }),
    {
        Entity { id, arena: ComponentArena::new() }
    }

    /// The identifier, which never changes.
    pub fn id(&self) -> (r: u64)
        ensures
            r == self@.id,
    {
        self.id
    }

    /// The components, for reading.
    pub fn data(&self) -> (r: &ComponentArena)
        ensures
            self@.wf(),
            r@ == self@.arena,
    {
        let arena = &self.arena;
        proof {
            use_type_invariant(arena);
        }
        arena
    }

    /// The components, for writing. The entity is the same but for what is
    /// done to the arena handed out.
    pub fn mut_data(&mut self) -> (r: &mut ComponentArena)
        ensures
            r@ == old(self)@.arena,
            final(self)@ == (EntityView { id: old(self)@.id, arena: final(r)@ }),
    {
        &mut self.arena
    }

    /// Resolves `change` against this entity's arena and reports how it went.
    pub fn resolve_changes(&mut self, change: Change) -> (r: Result<(), ChangeError>)
        ensures
            old(self)@.wf(),
            final(self)@.wf(),
            final(self)@ == old(self)@.resolve(change@),
            r == change@.resolve(old(self)@.arena).0,
    {
        let mut change = change;
        change.arena_insert(&mut self.arena)
    }

    /// Files a boxed component of this entity in `table`.
    pub fn add_comp(&self, table: &mut ComponentTable, component: Box<dyn Component>)
        ensures
            rows_wf(old(table)@),
            rows_wf(final(table)@),
            ({
                let holder = ComponentHolder { entity_id: self@.id, data: component };
                exists|name: Seq<char>|
                    #![trigger holder.data.names(name)]
                    holder.data.names(name) && final(table)@ == filed(old(table)@, name, holder)
            }),
    {
        let holder = ComponentHolder { entity_id: self.id, data: component };
        table.insert_component_holder(holder);
    }
}

} // verus!
