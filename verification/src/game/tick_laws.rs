//! What holds of every tick: the systems read the entities as they stood at
//! the start, whatever the order in which they are registered.

use vstd::prelude::*;
use crate::game::entity::{ChangeView, EntityView};
use crate::game::system::Registered;
use crate::game::tick_model::{
    answer_changes, answered, apply_all, collected, entities_wf, row_changes, trace_changes,
    traced, Answers, PendingView,
};
use crate::util::arena_model::ArenaView;

verus! {

/// Applying changes keeps well-formed entities well formed.
pub proof fn law_apply_keeps_wf(entities: Seq<EntityView>, pending: Seq<PendingView>)
    requires
        entities_wf(entities),
    ensures
        entities_wf(apply_all(entities, pending)),
    decreases pending.len(),
{
    if pending.len() > 0 {
        law_apply_keeps_wf(entities, pending.drop_last());
    }
}

/// `out` is an answer that the single system `system` may give for `entity`.
pub open spec fn gives(system: Registered, entity: EntityView, out: Option<ChangeView>) -> bool {
    match system {
        Registered::Single(s) => s.produces(entity, out),
        Registered::Pair(_) => false,
    }
}

/// The system's answer is decided by the entity it is given.
pub open spec fn deterministic(system: Registered) -> bool {
    forall|entity: EntityView, x: Option<ChangeView>, y: Option<ChangeView>|
        #![trigger gives(system, entity, x), gives(system, entity, y)]
        gives(system, entity, x) && gives(system, entity, y) ==> x == y
}

/// The two changes write different bytes into the same slot, and both writes
/// would be accepted: the one case in which the later write decides.
pub open spec fn clash(arena: ArenaView, x: ChangeView, y: ChangeView) -> bool {
    &&& x.payload is Some
    &&& y.payload is Some
    &&& x.label == y.label
    &&& x.payload != y.payload
    &&& arena.get_length(x.label) == Some(x.payload->0.len() as int)
    &&& arena.get_length(y.label) == Some(y.payload->0.len() as int)
}

/// The change that an answer holds, if any, for the entity at index 0.
pub open spec fn asked(out: Option<ChangeView>) -> Seq<PendingView> {
    match out {
        Some(change) => seq![PendingView { target: 0, change }],
        None => Seq::empty(),
    }
}

/// Two changes that do not clash leave the same arena in either order.
pub proof fn lemma_resolve_commutes(arena: ArenaView, x: ChangeView, y: ChangeView)
    requires
        arena.wf(),
        !clash(arena, x, y),
    ensures
        y.resolve(x.resolve(arena).1).1 == x.resolve(y.resolve(arena).1).1,
{
}

/// Simultaneity. Two single systems that each decide by what they read are
/// run over one entity. Whichever is registered first, both are answered for
/// the entity as it stood before the tick: the same two answers are collected, in the
/// order of registration, and unless the two changes clash the tick leaves the
/// entity in the same state.
pub proof fn law_simultaneity(
    a: Registered,
    b: Registered,
    entity: EntityView,
    from_a: Option<ChangeView>,
    from_b: Option<ChangeView>,
    a_first: Seq<PendingView>,
    b_first: Seq<PendingView>,
)
    requires
        entity.wf(),
        deterministic(a),
        deterministic(b),
        gives(a, entity, from_a),
        gives(b, entity, from_b),
        collected(seq![a, b], seq![entity], a_first),
        collected(seq![b, a], seq![entity], b_first),
    ensures
        a_first == asked(from_a) + asked(from_b),
        b_first == asked(from_b) + asked(from_a),
        !(from_a is Some && from_b is Some && clash(entity.arena, from_a->0, from_b->0))
            ==> apply_all(seq![entity], a_first) == apply_all(seq![entity], b_first),
{
    lemma_collected_two(a, b, entity, from_a, from_b, a_first);
    lemma_collected_two(b, a, entity, from_b, from_a, b_first);
    if !(from_a is Some && from_b is Some && clash(entity.arena, from_a->0, from_b->0)) {
        lemma_apply_asked(entity, from_a, from_b);
        lemma_apply_asked(entity, from_b, from_a);
        if from_a is Some && from_b is Some {
            lemma_resolve_commutes(entity.arena, from_a->0, from_b->0);
        }
    }
}

/// What two single systems collect from one entity.
proof fn lemma_collected_two(
    first: Registered,
    second: Registered,
    entity: EntityView,
    from_first: Option<ChangeView>,
    from_second: Option<ChangeView>,
    pending: Seq<PendingView>,
)
    requires
        deterministic(first),
        deterministic(second),
        gives(first, entity, from_first),
        gives(second, entity, from_second),
        collected(seq![first, second], seq![entity], pending),
    ensures
        pending == asked(from_first) + asked(from_second),
{
    let systems = seq![first, second];
    let entities = seq![entity];
    let trace = choose|trace: Seq<Answers>| #[trigger]
        traced(systems, entities, trace) && pending == trace_changes(trace);
    assert(trace[0][0].len() == 1 && gives(first, entities[0], trace[0][0][0]));
    assert(trace[1][0].len() == 1 && gives(second, entities[0], trace[1][0][0]));
    lemma_single_answer(trace[0]);
    lemma_single_answer(trace[1]);
    assert(trace_changes(trace.drop_last()) =~= answer_changes(trace[0])) by {
        reveal_with_fuel(trace_changes, 2);
    }
}

/// The changes in the answers of a single system for one entity.
proof fn lemma_single_answer(answers: Answers)
    requires
        answers.len() == 1,
        answers[0].len() == 1,
    ensures
        answer_changes(answers) == asked(answers[0][0]),
{
    let row = answers[0];
    assert(row_changes(0, row) =~= asked(row[0])) by {
        reveal_with_fuel(row_changes, 2);
    }
    assert(answer_changes(answers) =~= row_changes(0, row)) by {
        reveal_with_fuel(answer_changes, 2);
    }
}

/// Applying what two answers ask for resolves them in turn.
proof fn lemma_apply_asked(entity: EntityView, x: Option<ChangeView>, y: Option<ChangeView>)
    ensures
        apply_all(seq![entity], asked(x) + asked(y)) == seq![
            match y {
                Some(change) => match x {
                    Some(earlier) => entity.resolve(earlier),
                    None => entity,
                }.resolve(change),
                None => match x {
                    Some(earlier) => entity.resolve(earlier),
                    None => entity,
                },
            },
        ],
{
    reveal_with_fuel(apply_all, 3);
}

/// `system` may have handed back `change` for the entity at `target`, the
/// entities being in the states given in `entities`.
pub open spec fn answers_to(
    system: Registered,
    entities: Seq<EntityView>,
    target: int,
    change: ChangeView,
) -> bool {
    match system {
        Registered::Single(s) => s.produces(entities[target], Some(change)),
        Registered::Pair(s) => exists|other: int|
            0 <= other < entities.len() && entities[target].id != entities[other].id
                && #[trigger] s.produces(entities[target], entities[other], Some(change)),
    }
}

/// Simultaneity, for any number of systems and entities. Every change that a
/// pass collects is for an entity that exists, and is what one of the systems
/// handed back for that entity as it stood when the pass began: nothing that
/// another system, or the same one, asked for in the pass has been seen.
pub proof fn law_changes_answer_the_start(
    systems: Seq<Registered>,
    entities: Seq<EntityView>,
    pending: Seq<PendingView>,
    k: int,
)
    requires
        collected(systems, entities, pending),
        0 <= k < pending.len(),
    ensures
        0 <= pending[k].target < entities.len(),
        exists|s: int|
            0 <= s < systems.len() && answers_to(
                #[trigger] systems[s],
                entities,
                pending[k].target,
                pending[k].change,
            ),
{
    let trace = choose|trace: Seq<Answers>| #[trigger]
        traced(systems, entities, trace) && pending == trace_changes(trace);
    let (s, i, j) = lemma_trace_source(trace, k);
}

/// Where a change of a row comes from: the place of its answer in the row.
proof fn lemma_row_source(target: int, row: Seq<Option<ChangeView>>, k: int) -> (j: int)
    requires
        0 <= k < row_changes(target, row).len(),
    ensures
        0 <= j < row.len(),
        row[j] == Some(row_changes(target, row)[k].change),
        row_changes(target, row)[k].target == target,
    decreases row.len(),
{
    let before = row_changes(target, row.drop_last());
    if k < before.len() {
        lemma_row_source(target, row.drop_last(), k)
    } else {
        row.len() - 1
    }
}

/// Where a change of a system's answers comes from: the row, which is that of
/// its target, and the place in the row.
proof fn lemma_answer_source(answers: Answers, k: int) -> (place: (int, int))
    requires
        0 <= k < answer_changes(answers).len(),
    ensures
        0 <= place.0 < answers.len(),
        0 <= place.1 < answers[place.0].len(),
        answers[place.0][place.1] == Some(answer_changes(answers)[k].change),
        answer_changes(answers)[k].target == place.0,
    decreases answers.len(),
{
    let before = answer_changes(answers.drop_last());
    if k < before.len() {
        lemma_answer_source(answers.drop_last(), k)
    } else {
        let j = lemma_row_source(answers.len() - 1, answers.last(), k - before.len());
        (answers.len() - 1, j)
    }
}

/// Where a collected change comes from: the system, the row and the place.
proof fn lemma_trace_source(trace: Seq<Answers>, k: int) -> (place: (int, int, int))
    requires
        0 <= k < trace_changes(trace).len(),
    ensures
        0 <= place.0 < trace.len(),
        0 <= place.1 < trace[place.0].len(),
        0 <= place.2 < trace[place.0][place.1].len(),
        trace[place.0][place.1][place.2] == Some(trace_changes(trace)[k].change),
        trace_changes(trace)[k].target == place.1,
    decreases trace.len(),
{
    let before = trace_changes(trace.drop_last());
    if k < before.len() {
        lemma_trace_source(trace.drop_last(), k)
    } else {
        let (i, j) = lemma_answer_source(trace.last(), k - before.len());
        (trace.len() - 1, i, j)
    }
}

} // verus!
