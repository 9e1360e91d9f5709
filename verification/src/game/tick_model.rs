//! What one tick means: which changes the systems' answers amount to, and
//! what applying them does to the entities.

use vstd::prelude::*;
use crate::game::entity::{ChangeError, ChangeView, EntityView};
use crate::game::system::Registered;

verus! {

/// A collected change, as a value: the index of the entity it is for, and the
/// change.
pub struct PendingView {
    pub target: int,
    pub change: ChangeView,
}

/// A change that could not be applied: the identifier of the entity it was
/// for, and why.
#[derive(Debug, Clone, Copy, PartialEq, Eq, Structural)]
pub struct Failure {
    pub entity: u64,
    pub error: ChangeError,
}

/// The answers of one system: one row for each entity, in entity order. The
/// row of an entity holds one answer for a single system, and one answer for
/// each entity (itself included, where it is always nothing) for a pair system.
pub type Answers = Seq<Seq<Option<ChangeView>>>;

/// Every entity is well formed.
pub open spec fn entities_wf(entities: Seq<EntityView>) -> bool {
    forall|i: int| 0 <= i < entities.len() ==> (#[trigger] entities[i]).wf()
}

/// The identifiers grow along the sequence: no two entities share one.
pub open spec fn ids_increasing(entities: Seq<EntityView>) -> bool {
    forall|i: int, j: int|
        0 <= i < j < entities.len() ==> (#[trigger] entities[i]).id < (#[trigger] entities[j]).id
}

/// `answers` is what `system` may have handed back when it was run over
/// `entities`, each entity in the state given there.
pub open spec fn answered(system: Registered, entities: Seq<EntityView>, answers: Answers) -> bool {
    &&& answers.len() == entities.len()
    &&& match system {
        Registered::Single(s) => forall|i: int|
            0 <= i < entities.len() ==> (#[trigger] answers[i]).len() == 1 && s.produces(
                entities[i],
                answers[i][0],
            ),
        Registered::Pair(s) => forall|i: int|
            0 <= i < entities.len() ==> (#[trigger] answers[i]).len() == entities.len()
                && forall|j: int|
                0 <= j < entities.len() ==> if entities[i].id != entities[j].id {
                    s.produces(entities[i], entities[j], #[trigger] answers[i][j])
                } else {
                    answers[i][j] is None
                },
    }
}

/// The changes in one row of answers, in order, each for the entity `target`.
pub open spec fn row_changes(target: int, row: Seq<Option<ChangeView>>) -> Seq<PendingView>
    decreases row.len(),
{
    if row.len() == 0 {
        Seq::empty()
    } else {
        let before = row_changes(target, row.drop_last());
        match row.last() {
            Some(change) => before.push(PendingView { target, change }),
            None => before,
        }
    }
}

/// The changes in the answers of one system: row by row, the row of entity `i`
/// for entity `i`.
pub open spec fn answer_changes(answers: Answers) -> Seq<PendingView>
    decreases answers.len(),
{
    if answers.len() == 0 {
        Seq::empty()
    } else {
        answer_changes(answers.drop_last()) + row_changes(answers.len() - 1, answers.last())
    }
}

/// The changes in the answers of all systems, in registration order.
pub open spec fn trace_changes(trace: Seq<Answers>) -> Seq<PendingView>
    decreases trace.len(),
{
    if trace.len() == 0 {
        Seq::empty()
    } else {
        trace_changes(trace.drop_last()) + answer_changes(trace.last())
    }
}

/// `pending` is what a read-only pass of `systems` over `entities` may
/// collect: there are answers of each system, every one of them given for the
/// entities as they are in `entities`, that amount to it.
pub open spec fn collected(
    systems: Seq<Registered>,
    entities: Seq<EntityView>,
    pending: Seq<PendingView>,
) -> bool {
    exists|trace: Seq<Answers>| #[trigger] traced(systems, entities, trace) && pending == trace_changes(trace)
}

/// `trace` holds possible answers of each of `systems` for `entities`.
pub open spec fn traced(systems: Seq<Registered>, entities: Seq<EntityView>, trace: Seq<Answers>) -> bool {
    &&& trace.len() == systems.len()
    &&& forall|s: int| 0 <= s < systems.len() ==> answered(systems[s], entities, #[trigger] trace[s])
}

/// Every collected change is for an entity that exists.
pub open spec fn targets_within(pending: Seq<PendingView>, n: int) -> bool {
    forall|k: int| 0 <= k < pending.len() ==> 0 <= (#[trigger] pending[k]).target < n
}

/// The entities after one change was resolved against its target.
pub open spec fn apply_one(entities: Seq<EntityView>, p: PendingView) -> Seq<EntityView> {
    if 0 <= p.target < entities.len() {
        entities.update(p.target, entities[p.target].resolve(p.change))
    } else {
        entities
    }
}

/// The entities after the changes were resolved, one after the other.
pub open spec fn apply_all(entities: Seq<EntityView>, pending: Seq<PendingView>) -> Seq<EntityView>
    decreases pending.len(),
{
    if pending.len() == 0 {
        entities
    } else {
        apply_one(apply_all(entities, pending.drop_last()), pending.last())
    }
}

/// The failure, if any, of resolving one change against the entities.
pub open spec fn failure_of(entities: Seq<EntityView>, p: PendingView) -> Option<Failure> {
    if 0 <= p.target < entities.len() {
        match p.change.resolve(entities[p.target].arena).0 {
            Ok(_) => None,
            Err(error) => Some(Failure { entity: entities[p.target].id, error }),
        }
    } else {
        None
    }
}

/// The failures met while the changes were resolved, in order.
pub open spec fn failures(entities: Seq<EntityView>, pending: Seq<PendingView>) -> Seq<Failure>
    decreases pending.len(),
{
    if pending.len() == 0 {
        Seq::empty()
    } else {
        let before = failures(entities, pending.drop_last());
        match failure_of(apply_all(entities, pending.drop_last()), pending.last()) {
            Some(failure) => before.push(failure),
            None => before,
        }
    }
}

/// One more answer in a row adds its change, if it holds one.
pub proof fn lemma_row_changes_push(target: int, row: Seq<Option<ChangeView>>, out: Option<ChangeView>)
    ensures
        row_changes(target, row.push(out)) == match out {
            Some(change) => row_changes(target, row).push(PendingView { target, change }),
            None => row_changes(target, row),
        },
{
    assert(row.push(out).drop_last() =~= row);
}

/// One more row adds the changes of that row.
pub proof fn lemma_answer_changes_push(answers: Answers, row: Seq<Option<ChangeView>>)
    ensures
        answer_changes(answers.push(row)) == answer_changes(answers) + row_changes(
            answers.len() as int,
            row,
        ),
{
    assert(answers.push(row).drop_last() =~= answers);
}

/// One more system adds the changes of its answers.
pub proof fn lemma_trace_changes_push(trace: Seq<Answers>, answers: Answers)
    ensures
        trace_changes(trace.push(answers)) == trace_changes(trace) + answer_changes(answers),
{
    assert(trace.push(answers).drop_last() =~= trace);
}

/// Applying one more change applies it to what the others left.
pub proof fn lemma_apply_all_push(entities: Seq<EntityView>, pending: Seq<PendingView>, p: PendingView)
    ensures
        apply_all(entities, pending.push(p)) == apply_one(apply_all(entities, pending), p),
        failures(entities, pending.push(p)) == match failure_of(apply_all(entities, pending), p) {
            Some(failure) => failures(entities, pending).push(failure),
            None => failures(entities, pending),
        },
{
    assert(pending.push(p).drop_last() =~= pending);
}

/// Applying changes keeps the number of entities, their identifiers and
/// their order.
pub proof fn lemma_apply_all_keeps_ids(entities: Seq<EntityView>, pending: Seq<PendingView>)
    ensures
        apply_all(entities, pending).len() == entities.len(),
        forall|i: int|
            0 <= i < entities.len() ==> (#[trigger] apply_all(entities, pending)[i]).id
                == entities[i].id,
        ids_increasing(entities) ==> ids_increasing(apply_all(entities, pending)),
    decreases pending.len(),
{
    if pending.len() > 0 {
        lemma_apply_all_keeps_ids(entities, pending.drop_last());
    }
}

} // verus!
