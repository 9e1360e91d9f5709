use functional_game_engine::game::clock::TickPacer;
use functional_game_engine::game::entity::{Change, ChangeError, Entity};
use functional_game_engine::game::system::{PairSystem, Registered, System};
use functional_game_engine::game::tick_model::Failure;
use functional_game_engine::game::transform::read_all_either;
use functional_game_engine::game::GameState;
use functional_game_engine::util::arena::ComponentArena;
use functional_game_engine::util::arena_model::ArenaError;

/// Asks for `pos + 1`.
struct Advance;

impl System for Advance {
    fn execute(&self, entity: &Entity) -> Option<Change> {
        let pos: u32 = entity.data().get("pos")?;
        Some(Change::new(pos + 1, "pos"))
    }
}

/// Asks for `seen` to hold what `pos` holds.
struct Watch;

impl System for Watch {
    fn execute(&self, entity: &Entity) -> Option<Change> {
        let pos: u32 = entity.data().get("pos")?;
        Some(Change::new(pos, "seen"))
    }
}

/// Asks for a label that no entity has.
struct Stray;

impl System for Stray {
    fn execute(&self, _entity: &Entity) -> Option<Change> {
        Some(Change::new(1u8, "nowhere"))
    }
}

/// Asks for `sum` to grow by the `pos` of the other entity.
struct Gather;

impl PairSystem for Gather {
    fn execute(&self, entity: &Entity, other: &Entity) -> Option<Change> {
        let sum: u32 = entity.data().get("sum")?;
        let pos: u32 = other.data().get("pos")?;
        Some(Change::new(sum + pos, "sum"))
    }
}

fn one_entity(systems: Vec<Registered>) -> GameState {
    let mut state = GameState::new();
    {
        let entity = state.new_entity_mut();
        entity.mut_data().allocate(10u32, "pos");
        entity.mut_data().allocate(0u32, "seen");
    }
    for system in systems {
        state.add_system(system);
    }
    state
}

#[test]
fn entity_starts_empty() {
    let entity = Entity::new(7);
    assert_eq!(entity.id(), 7);
    assert!(entity.data().labels().is_empty());
    assert!(!entity.data().has("pos"));
}

#[test]
fn entity_is_written_through_mut_data() {
    let mut entity = Entity::new(1);
    entity.mut_data().allocate(5u16, "hp");
    assert_eq!(entity.data().get::<u16>("hp"), Some(5));
    assert_eq!(entity.id(), 1);
}

#[test]
fn change_is_resolved_once() {
    let mut arena = ComponentArena::new();
    arena.allocate(1u32, "pos");
    let mut change = Change::new(2u32, "pos");
    assert!(change.is_pending());
    assert_eq!(change.label(), "pos");
    assert_eq!(change.arena_insert(&mut arena), Ok(()));
    assert!(!change.is_pending());
    assert_eq!(arena.get::<u32>("pos"), Some(2));
    assert_eq!(change.arena_insert(&mut arena), Err(ChangeError::Spent));
    assert_eq!(arena.get::<u32>("pos"), Some(2));
}

#[test]
fn resolve_changes_reports_each_failure() {
    let mut entity = Entity::new(3);
    entity.mut_data().allocate(1u32, "pos");

    assert_eq!(entity.resolve_changes(Change::new(9u32, "pos")), Ok(()));
    assert_eq!(entity.data().get::<u32>("pos"), Some(9));

    assert_eq!(
        entity.resolve_changes(Change::new(9u32, "vel")),
        Err(ChangeError::Arena(ArenaError::LabelNotFound))
    );
    assert_eq!(
        entity.resolve_changes(Change::new(9u64, "pos")),
        Err(ChangeError::Arena(ArenaError::SizeMismatch { expected: 4, found: 8 }))
    );
    let mut spent = Change::from_raw(vec![0, 0, 0, 0], "pos");
    let mut elsewhere = ComponentArena::new();
    assert!(spent.arena_insert(&mut elsewhere).is_err());
    assert_eq!(entity.resolve_changes(spent), Err(ChangeError::Spent));
    assert_eq!(entity.data().get::<u32>("pos"), Some(9));
}

#[test]
fn identifiers_are_handed_out_in_order() {
    let mut state = GameState::new();
    assert_eq!(state.next_id(), 0);
    assert_eq!(state.new_entity(), 0);
    assert_eq!(state.new_entity(), 1);
    assert_eq!(state.new_entity_mut().id(), 2);
    assert_eq!(state.next_id(), 3);
    let ids: Vec<u64> = state.entities().iter().map(|e| e.id()).collect();
    assert_eq!(ids, vec![0, 1, 2]);
    assert!(state.entity_mut(3).is_none());
    assert_eq!(state.entity_mut(1).unwrap().id(), 1);
}

#[test]
fn tick_applies_what_the_systems_ask() {
    let mut state = one_entity(vec![Registered::Single(Box::new(Advance))]);
    assert!(state.sim_tick().is_empty());
    assert_eq!(state.entities()[0].data().get::<u32>("pos"), Some(11));
    assert!(state.sim_tick().is_empty());
    assert_eq!(state.entities()[0].data().get::<u32>("pos"), Some(12));
}

#[test]
fn systems_read_the_state_before_the_tick() {
    let mut state = one_entity(vec![
        Registered::Single(Box::new(Advance)),
        Registered::Single(Box::new(Watch)),
    ]);
    assert!(state.sim_tick().is_empty());
    assert_eq!(state.entities()[0].data().get::<u32>("pos"), Some(11));
    assert_eq!(state.entities()[0].data().get::<u32>("seen"), Some(10));
}

#[test]
fn registration_order_does_not_change_the_outcome() {
    let mut forward = one_entity(vec![
        Registered::Single(Box::new(Advance)),
        Registered::Single(Box::new(Watch)),
    ]);
    let mut backward = one_entity(vec![
        Registered::Single(Box::new(Watch)),
        Registered::Single(Box::new(Advance)),
    ]);
    forward.sim_tick();
    backward.sim_tick();
    for label in ["pos", "seen"] {
        assert_eq!(
            forward.entities()[0].data().get_bytes(label),
            backward.entities()[0].data().get_bytes(label)
        );
    }
    assert_eq!(backward.entities()[0].data().get::<u32>("seen"), Some(10));
}

#[test]
fn evaluate_writes_nothing() {
    let state = one_entity(vec![Registered::Single(Box::new(Advance))]);
    let pending = state.evaluate();
    assert_eq!(pending.len(), 1);
    assert_eq!(state.entities()[0].data().get::<u32>("pos"), Some(10));
}

#[test]
fn failed_changes_are_reported_and_the_rest_applied() {
    let mut state = one_entity(vec![
        Registered::Single(Box::new(Stray)),
        Registered::Single(Box::new(Advance)),
    ]);
    let report = state.sim_tick();
    assert_eq!(
        report,
        vec![Failure { entity: 0, error: ChangeError::Arena(ArenaError::LabelNotFound) }]
    );
    assert_eq!(state.entities()[0].data().get::<u32>("pos"), Some(11));
}

#[test]
fn pair_changes_go_to_the_first_entity_only() {
    let mut state = GameState::new();
    for pos in [1u32, 10, 100] {
        let entity = state.new_entity_mut();
        entity.mut_data().allocate(pos, "pos");
        entity.mut_data().allocate(0u32, "sum");
    }
    state.add_system(Registered::Pair(Box::new(Gather)));
    assert!(state.sim_tick().is_empty());
    // Each pair asks for `sum` anew from the state before the tick, and the
    // change collected last is the one that stays.
    let sums: Vec<Option<u32>> =
        state.entities().iter().map(|e| e.data().get::<u32>("sum")).collect();
    assert_eq!(sums, vec![Some(100), Some(100), Some(10)]);
    let positions: Vec<Option<u32>> =
        state.entities().iter().map(|e| e.data().get::<u32>("pos")).collect();
    assert_eq!(positions, vec![Some(1), Some(10), Some(100)]);
}

#[test]
fn read_all_either_sorts_by_length() {
    let mut state = GameState::new();
    state.new_entity_mut().mut_data().allocate(7u16, "pos");
    state.new_entity_mut().mut_data().allocate(8u32, "pos");
    state.new_entity_mut().mut_data().allocate(9u64, "pos");
    state.new_entity();
    state.new_entity_mut().mut_data().allocate(10u16, "pos");
    let (short, long) = read_all_either::<u16, u32>(state.entities(), "pos");
    assert_eq!(short, vec![7, 10]);
    assert_eq!(long, vec![8]);
}

#[test]
fn pacer_lets_one_tick_through_per_period() {
    let mut pacer = TickPacer::new(100, 1_000);
    assert_eq!(pacer.poll(1_050), None);
    assert_eq!(pacer.poll(1_099), None);
    assert_eq!(pacer.poll(1_100), Some(100));
    assert_eq!(pacer.poll(1_100), None);
    assert_eq!(pacer.poll(1_199), None);
}

#[test]
fn pacer_makes_one_tick_of_many_periods() {
    let mut pacer = TickPacer::new(100, 0);
    assert_eq!(pacer.poll(1_000), Some(1_000));
    assert_eq!(pacer.poll(1_050), None);
    assert_eq!(pacer.poll(1_100), Some(100));
}

#[test]
fn pacer_ignores_a_clock_that_went_back() {
    let mut pacer = TickPacer::new(100, 500);
    assert_eq!(pacer.poll(10), None);
    assert_eq!(pacer.poll(600), Some(100));
}

#[test]
fn change_errors_in_words() {
    assert_eq!(ChangeError::Spent.message(), "Change has no data!");
    assert_eq!(
        ChangeError::Arena(ArenaError::LabelNotFound).message(),
        "label does not exist!"
    );
}
