//! The simulation: entities, the systems that read them, and the tick that
//! applies what the systems asked for.

pub mod clock;
pub mod component;
pub mod component_laws;
pub mod entity;
pub mod system;
pub mod tick_laws;
pub mod tick_model;
pub mod transform;

use vstd::prelude::*;
use crate::game::component::{filed, Component, ComponentHolder, ComponentTable, RowView};
use crate::game::entity::{Change, ChangeView, Entity, EntityView};
use crate::util::arena_model::ArenaView;
use crate::game::system::{outcome, Registered};
use crate::game::tick_model::{
    answer_changes, answered, apply_all, apply_one, collected, failures, ids_increasing,
    lemma_answer_changes_push, lemma_apply_all_keeps_ids, lemma_apply_all_push,
    lemma_row_changes_push, lemma_trace_changes_push, row_changes, targets_within, trace_changes,
    traced, Answers, Failure, PendingView,
};

verus! {

/// When a system is meant to run.
pub enum Times {
    Startup,
    SimulationTick,
}

/// A change that a system asked for, with the entity it is for.
pub struct Pending {
    target: usize,
    change: Change,
}

impl View for Pending {
    type V = PendingView;

    closed spec fn view(&self) -> PendingView {
        PendingView { target: self.target as int, change: self.change@ }
    }
}

impl Pending {
    /// The index of the entity that the change is for.
    pub fn target(&self) -> (r: usize)
        ensures
            r == self@.target,
    {
        self.target
    }

    /// The change.
    pub fn change(&self) -> (r: &Change)
        ensures
            r@ == self@.change,
    {
        &self.change
    }
}

/// The views of a sequence of entities.
pub open spec fn entity_views(entities: Seq<Entity>) -> Seq<EntityView> {
    entities.map_values(|e: Entity| e@)
}

/// The views of a sequence of collected changes.
pub open spec fn pending_views(pending: Seq<Pending>) -> Seq<PendingView> {
    pending.map_values(|p: Pending| p@)
}

/// The state of a simulation as a value.
pub struct GameView {
    pub entities: Seq<EntityView>,
    pub components: Seq<RowView>,
    pub systems: Seq<Registered>,
    pub next_id: u64,
}

impl GameView {
    /// The identifiers are as the simulation hands them out: growing along
    /// the entities, and all below `next_id`.
    pub open spec fn wf(self) -> bool {
        &&& ids_increasing(self.entities)
        &&& forall|i: int| 0 <= i < self.entities.len() ==> (#[trigger] self.entities[i]).id < self.next_id
    }
}

/// The entities of a simulation and the systems registered with it.
pub struct GameState {
    entities: Vec<Entity>,
    component_table: ComponentTable,
    systems: Vec<Registered>,
    next_id: u64,
}

impl View for GameState {
    type V = GameView;

    closed spec fn view(&self) -> GameView {
        GameView {
            entities: entity_views(self.entities@),
            components: self.component_table@,
            systems: self.systems@,
            next_id: self.next_id,
        }
    }
}

impl GameState {
    /// A simulation without entities and without systems.
    pub fn new() -> (r: Self)
        ensures
            r@.wf(),
            r@.entities == Seq::<EntityView>::empty(),
            r@.components == Seq::<RowView>::empty(),
            r@.systems == Seq::<Registered>::empty(),
            r@.next_id == 0,
    {
        let r = GameState {
            entities: Vec::new(),
            component_table: ComponentTable::new(),
            systems: Vec::new(),
            next_id: 0,
        };
        r
    }

    /// The entities, in the order in which they were made.
    pub fn entities(&self) -> (r: &Vec<Entity>)
        ensures
            entity_views(r@) == self@.entities,
    {
        &self.entities
    }

    /// The boxed components of the simulation, for reading.
    pub fn component_table(&self) -> (r: &ComponentTable)
        ensures
            r@ == self@.components,
    {
        &self.component_table
    }

    /// The boxed components of the simulation, for writing. The simulation is
    /// the same but for what is done to the table handed out.
    pub fn component_table_mut(&mut self) -> (r: &mut ComponentTable)
        ensures
            r@ == old(self)@.components,
            final(self)@ == (GameView { components: final(r)@, ..old(self)@ }),
    {
        &mut self.component_table
    }

    /// Files a boxed component for the entity at `index`; nothing is filed, and
    /// `false` returned, when there is no such entity.
    pub fn add_comp(&mut self, index: usize, component: Box<dyn Component>) -> (r: bool)
        ensures
            r == (index < old(self)@.entities.len()),
            !r ==> final(self)@ == old(self)@,
            r ==> ({
                let holder = ComponentHolder {
                    entity_id: old(self)@.entities[index as int].id,
                    data: component,
                };
                exists|name: Seq<char>|
                    #![trigger holder.data.names(name)]
                    holder.data.names(name) && final(self)@ == (GameView {
                        components: filed(old(self)@.components, name, holder),
                        ..old(self)@
                    })
            }),
    {
        if index < self.entities.len() {
            let entity_id = self.entities[index].id();
            self.component_table.insert_component_holder(
                ComponentHolder { entity_id, data: component },
            );
            true
        } else {
            false
        }
    }

    /// The identifier that the next entity will get.
    pub fn next_id(&self) -> (r: u64)
        ensures
            r == self@.next_id,
    {
        self.next_id
    }

    /// Registers a system, behind those registered before.
    pub fn add_system(&mut self, system: Registered)
        ensures
            final(self)@ == (GameView {
                systems: old(self)@.systems.push(system),
                ..old(self)@
            }),
    {
        self.systems.push(system);
    }

    /// Makes an entity without components, under the next free identifier,
    /// and returns that identifier.
    pub fn new_entity(&mut self) -> (id: u64)
        requires
            old(self)@.next_id < u64::MAX,
        ensures
            old(self)@.wf() ==> final(self)@.wf(),
            id == old(self)@.next_id,
            final(self)@ == (GameView {
                entities: old(self)@.entities.push(EntityView { id, arena: ArenaView::empty() }),
                next_id: (id + 1) as u64,
                ..old(self)@
            }),
    {
        let id = self.next_id;
        let entity = Entity::new(id);
        self.entities.push(entity);
        self.next_id = id + 1;
        proof {
            assert(self@.entities =~= old(self)@.entities.push(entity@));
        }
        id
    }

    /// Makes an entity as [`Self::new_entity`] does, and hands it out for
    /// writing. The simulation is the same but for what is done to the entity
    /// handed out.
    pub fn new_entity_mut(&mut self) -> (r: &mut Entity)
        requires
            old(self)@.next_id < u64::MAX,
        ensures
            r@ == (EntityView { id: old(self)@.next_id, arena: ArenaView::empty() }),
            final(self)@ == (GameView {
                entities: old(self)@.entities.push(final(r)@),
                next_id: (old(self)@.next_id + 1) as u64,
                ..old(self)@
            }),
    {
        let id = self.next_id;
        self.entities.push(Entity::new(id));
        self.next_id = id + 1;
        let last = self.entities.len() - 1;
        let ghost before = self.entities@;
        let r = &mut self.entities[last];
        proof {
            assert(entity_views(before.update(last as int, *final(r))) =~= old(self)@.entities.push(
                final(r)@,
            ));
        }
        r
    }

    /// The entity at `index`, for writing.
    pub fn entity_mut(&mut self, index: usize) -> (r: Option<&mut Entity>)
        ensures
            index >= old(self)@.entities.len() ==> r is None && final(self)@ == old(self)@,
            index < old(self)@.entities.len() ==> r is Some && r->0@ == old(self)@.entities[index as int]
                && final(self)@ == (GameView {
                entities: old(self)@.entities.update(index as int, final(r->0)@),
                ..old(self)@
            }),
    {
        if index < self.entities.len() {
            let ghost before = self.entities@;
            let r = &mut self.entities[index];
            proof {
                assert(entity_views(before.update(index as int, *final(r))) =~= old(
                    self,
                )@.entities.update(index as int, final(r)@));
            }
            Some(r)
        } else {
            None
        }
    }

    /// The read-only half of a tick: runs every system, in registration
    /// order, over every entity, in entity order, and collects the changes
    /// they ask for. Nothing is written, so every system sees the entities as
    /// they are now.
    pub fn evaluate(&self) -> (pending: Vec<Pending>)
        ensures
            collected(self@.systems, self@.entities, pending_views(pending@)),
            targets_within(pending_views(pending@), self@.entities.len() as int),
    {
        let mut pending: Vec<Pending> = Vec::new();
        let ghost mut trace: Seq<Answers> = Seq::empty();
        let mut s: usize = 0;
        while s < self.systems.len()
            invariant
                0 <= s <= self.systems@.len(),
                trace.len() == s,
                forall|k: int| 0 <= k < s ==> answered(self.systems@[k], self@.entities, #[trigger] trace[k]),
                pending_views(pending@) == trace_changes(trace),
                targets_within(pending_views(pending@), self@.entities.len() as int),
            decreases self.systems@.len() - s,
        {
            let answers = run_system(&self.systems[s], &self.entities, &mut pending);
            proof {
                lemma_trace_changes_push(trace, answers@);
                trace = trace.push(answers@);
            }
            s += 1;
        }
        assert(traced(self@.systems, self@.entities, trace));
        pending
    }

    /// The writing half of a tick: resolves the collected changes against
    /// their entities, in the order in which they were collected. A change
    /// that fails is left out and reported; the others are still applied.
    pub fn apply(&mut self, pending: Vec<Pending>) -> (report: Vec<Failure>)
        requires
            targets_within(pending_views(pending@), old(self)@.entities.len() as int),
        ensures
            old(self)@.wf() ==> final(self)@.wf(),
            final(self)@ == (GameView {
                entities: apply_all(old(self)@.entities, pending_views(pending@)),
                ..old(self)@
            }),
            report@ == failures(old(self)@.entities, pending_views(pending@)),
    {
        let ghost start = self@.entities;
        let ghost all = pending_views(pending@);
        let mut report: Vec<Failure> = Vec::new();
        for p in it: pending
            invariant
                start == old(self)@.entities,
                all == pending_views(it.seq()),
                targets_within(all, start.len() as int),
                self@ == (GameView {
                    entities: apply_all(start, all.take(it.index() as int)),
                    ..old(self)@
                }),
                report@ == failures(start, all.take(it.index() as int)),
        {
            let ghost done = all.take(it.index() as int);
            proof {
                assert(all.take(it.index() + 1) =~= done.push(p@));
                lemma_apply_all_keeps_ids(start, done);
                lemma_apply_all_push(start, done, p@);
            }
            let Pending { target, change } = p;
            let entity = &mut self.entities[target];
            let id = entity.id();
            match entity.resolve_changes(change) {
                Ok(()) => {},
                Err(error) => {
                    report.push(Failure { entity: id, error });
                },
            }
            proof {
                assert(self@.entities =~= apply_one(apply_all(start, done), p@));
            }
        }
        proof {
            assert(all.take(all.len() as int) =~= all);
            lemma_apply_all_keeps_ids(start, all);
        }
        report
    }

    /// One step of the simulation: every system is run over the entities as
    /// they stand at the start, and only then are the changes written. So no
    /// system sees what another, or itself, asked for in the same tick.
    ///
    /// Returns the changes that could not be applied, in order. It is for the
    /// caller to stop or to go on when there are any.
    pub fn sim_tick(&mut self) -> (report: Vec<Failure>)
        ensures
            old(self)@.wf() ==> final(self)@.wf(),
            exists|pending: Seq<PendingView>|
                #![trigger collected(old(self)@.systems, old(self)@.entities, pending)]
                {
                    &&& collected(old(self)@.systems, old(self)@.entities, pending)
                    &&& final(self)@ == (GameView {
                        entities: apply_all(old(self)@.entities, pending),
                        ..old(self)@
                    })
                    &&& report@ == failures(old(self)@.entities, pending)
                },
    {
        let pending = self.evaluate();
        self.apply(pending)
    }
}

/// Runs one system over the entities and adds the changes it asks for to
/// `pending`; the answers it gave are returned for the proof.
fn run_system(system: &Registered, entities: &Vec<Entity>, pending: &mut Vec<Pending>) -> (answers:
    Ghost<Answers>)
    requires
        targets_within(pending_views(old(pending)@), entities@.len() as int),
    ensures
        answered(*system, entity_views(entities@), answers@),
        pending_views(final(pending)@) == pending_views(old(pending)@) + answer_changes(answers@),
        targets_within(pending_views(final(pending)@), entities@.len() as int),
{
    let ghost views = entity_views(entities@);
    let ghost start = pending_views(pending@);
    let ghost mut answers: Answers = Seq::empty();
    let mut i: usize = 0;
    while i < entities.len()
        invariant
            views == entity_views(entities@),
            0 <= i <= entities@.len(),
            answers.len() == i,
            match *system {
                Registered::Single(sys) => forall|k: int|
                    0 <= k < i ==> (#[trigger] answers[k]).len() == 1 && sys.produces(
                        views[k],
                        answers[k][0],
                    ),
                Registered::Pair(sys) => forall|k: int|
                    0 <= k < i ==> (#[trigger] answers[k]).len() == views.len() && forall|j: int|
                        0 <= j < views.len() ==> if views[k].id != views[j].id {
                            sys.produces(views[k], views[j], #[trigger] answers[k][j])
                        } else {
                            answers[k][j] is None
                        },
            },
            pending_views(pending@) == start + answer_changes(answers),
            targets_within(pending_views(pending@), entities@.len() as int),
        decreases entities@.len() - i,
    {
        let ghost mut row: Seq<Option<ChangeView>> = Seq::empty();
        let ghost row_start = pending_views(pending@);
        match system {
            Registered::Single(sys) => {
                let out = sys.execute(&entities[i]);
                proof {
                    lemma_row_changes_push(i as int, row, outcome(out));
                    row = row.push(outcome(out));
                }
                if let Some(change) = out {
                    let ghost before = pending@;
                    pending.push(Pending { target: i, change });
                    assert(pending_views(pending@) =~= pending_views(before).push(
                        PendingView { target: i as int, change: change@ },
                    ));
                }
            },
            Registered::Pair(sys) => {
                let mut j: usize = 0;
                while j < entities.len()
                    invariant
                        views == entity_views(entities@),
                        0 <= i < entities@.len(),
                        0 <= j <= entities@.len(),
                        row.len() == j,
                        forall|k: int|
                            0 <= k < j ==> if views[i as int].id != views[k].id {
                                sys.produces(views[i as int], views[k], #[trigger] row[k])
                            } else {
                                row[k] is None
                            },
                        pending_views(pending@) == row_start + row_changes(i as int, row),
                        targets_within(pending_views(pending@), entities@.len() as int),
                    decreases entities@.len() - j,
                {
                    if entities[i].id() != entities[j].id() {
                        let out = sys.execute(&entities[i], &entities[j]);
                        proof {
                            lemma_row_changes_push(i as int, row, outcome(out));
                            row = row.push(outcome(out));
                        }
                        if let Some(change) = out {
                            let ghost before = pending@;
                            pending.push(Pending { target: i, change });
                            assert(pending_views(pending@) =~= pending_views(before).push(
                                PendingView { target: i as int, change: change@ },
                            ));
                        }
                    } else {
                        proof {
                            lemma_row_changes_push(i as int, row, None);
                            row = row.push(None);
                        }
                    }
                    j += 1;
                }
            },
        }
        proof {
            lemma_answer_changes_push(answers, row);
            answers = answers.push(row);
        }
        i += 1;
    }
    Ghost(answers)
}

} // verus!
