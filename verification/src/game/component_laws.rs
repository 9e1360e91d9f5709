//! What holds of every component table.

use vstd::prelude::*;
use crate::game::component::{filed, held_by, held_in, is_row, ComponentHolder, RowView};

verus! {

/// Filing a component changes nothing of what is held for any other entity.
pub proof fn law_filing_leaves_others(
    rows: Seq<RowView>,
    name: Seq<char>,
    holder: ComponentHolder,
    other: u64,
)
    requires
        other != holder.entity_id,
    ensures
        held_in(filed(rows, name, holder), other) == held_in(rows, other),
{
    lemma_held_by_push(Seq::empty(), holder, other);
    if exists|i: int| is_row(rows, name, i) {
        let i = choose|i: int| is_row(rows, name, i);
        let row = RowView { name, holders: rows[i].holders.push(holder) };
        lemma_held_by_push(rows[i].holders, holder, other);
        lemma_held_in_update(rows, i, row, other, 0);
    } else {
        let row = RowView { name, holders: seq![holder] };
        assert(rows.push(row).drop_last() =~= rows);
    }
}

/// Filing a component adds one to what is held for its entity.
pub proof fn law_filing_adds_one(rows: Seq<RowView>, name: Seq<char>, holder: ComponentHolder)
    ensures
        held_in(filed(rows, name, holder), holder.entity_id).len() == held_in(
            rows,
            holder.entity_id,
        ).len() + 1,
{
    let id = holder.entity_id;
    lemma_held_by_push(Seq::empty(), holder, id);
    if exists|i: int| is_row(rows, name, i) {
        let i = choose|i: int| is_row(rows, name, i);
        let row = RowView { name, holders: rows[i].holders.push(holder) };
        lemma_held_by_push(rows[i].holders, holder, id);
        lemma_held_in_update(rows, i, row, id, 1);
    } else {
        let row = RowView { name, holders: seq![holder] };
        assert(rows.push(row).drop_last() =~= rows);
    }
}

/// One more holder is kept when it belongs to the entity, and left out when
/// it does not.
pub proof fn lemma_held_by_push(
    holders: Seq<ComponentHolder>,
    holder: ComponentHolder,
    entity_id: u64,
)
    ensures
        held_by(holders.push(holder), entity_id) == if holder.entity_id == entity_id {
            held_by(holders, entity_id).push(holder)
        } else {
            held_by(holders, entity_id)
        },
{
    assert(holders.push(holder).drop_last() =~= holders);
}

/// A row that holds `more` components more for an entity than the row it
/// replaces makes the table hold `more` more for it; and with no more, the
/// same.
proof fn lemma_held_in_update(rows: Seq<RowView>, i: int, row: RowView, entity_id: u64, more: int)
    requires
        0 <= i < rows.len(),
        held_by(row.holders, entity_id).len() == held_by(rows[i].holders, entity_id).len() + more,
        more == 0 ==> held_by(row.holders, entity_id) == held_by(rows[i].holders, entity_id),
    ensures
        held_in(rows.update(i, row), entity_id).len() == held_in(rows, entity_id).len() + more,
        more == 0 ==> held_in(rows.update(i, row), entity_id) == held_in(rows, entity_id),
    decreases rows.len(),
{
    let after = rows.update(i, row);
    if i == rows.len() - 1 {
        assert(after.drop_last() =~= rows.drop_last());
    } else {
        assert(after.drop_last() =~= rows.drop_last().update(i, row));
        lemma_held_in_update(rows.drop_last(), i, row, entity_id, more);
    }
}

} // verus!
