//! Reading one component of every entity at once, for a consumer that wants
//! the state of the simulation between two ticks.

use vstd::prelude::*;
use crate::game::entity::{Entity, EntityView};
use crate::game::entity_views;
use crate::util::{decodes_either, Byteable, Either};

verus! {

/// `picks` holds, for each entity in order, what reading `label` as an `A` or
/// a `B` gives for it.
pub open spec fn read_each<A: Byteable, B: Byteable>(
    entities: Seq<EntityView>,
    label: Seq<char>,
    picks: Seq<Option<Either<A, B>>>,
) -> bool {
    &&& picks.len() == entities.len()
    &&& forall|i: int|
        0 <= i < entities.len() ==> match entities[i].arena.get_bytes(label) {
            Some(bytes) => decodes_either(bytes, #[trigger] picks[i]),
            None => picks[i] is None,
        }
}

/// The values of the first kind among `picks`, in order.
pub open spec fn firsts<A, B>(picks: Seq<Option<Either<A, B>>>) -> Seq<A>
    decreases picks.len(),
{
    if picks.len() == 0 {
        Seq::empty()
    } else {
        match picks.last() {
            Some(Either::This(a)) => firsts(picks.drop_last()).push(a),
            _ => firsts(picks.drop_last()),
        }
    }
}

/// The values of the second kind among `picks`, in order.
pub open spec fn seconds<A, B>(picks: Seq<Option<Either<A, B>>>) -> Seq<B>
    decreases picks.len(),
{
    if picks.len() == 0 {
        Seq::empty()
    } else {
        match picks.last() {
            Some(Either::That(b)) => seconds(picks.drop_last()).push(b),
            _ => seconds(picks.drop_last()),
        }
    }
}

/// Reads the component `label` of every entity, which is an `A` for some and
/// a `B` for others, and returns the values of each kind in entity order.
/// Entities without the component, or with one of neither kind, are left out.
pub fn read_all_either<A: Byteable, B: Byteable>(entities: &Vec<Entity>, label: &str) -> (r: (
    Vec<A>,
    Vec<B>,
))
    ensures
        exists|picks: Seq<Option<Either<A, B>>>|
            #![trigger read_each(entity_views(entities@), label@, picks)]
            read_each(entity_views(entities@), label@, picks) && r.0@ == firsts(picks) && r.1@
                == seconds(picks),
{
    let ghost views = entity_views(entities@);
    let mut first: Vec<A> = Vec::new();
    let mut second: Vec<B> = Vec::new();
    let ghost mut picks: Seq<Option<Either<A, B>>> = Seq::empty();
    let mut i: usize = 0;
    while i < entities.len()
        invariant
            views == entity_views(entities@),
            0 <= i <= entities@.len(),
            picks.len() == i,
            forall|k: int|
                0 <= k < i ==> match views[k].arena.get_bytes(label@) {
                    Some(bytes) => decodes_either(bytes, #[trigger] picks[k]),
                    None => picks[k] is None,
                },
            first@ == firsts(picks),
            second@ == seconds(picks),
        decreases entities@.len() - i,
    {
        let pick = entities[i].data().get_either::<A, B>(label);
        proof {
            assert(picks.push(pick).drop_last() =~= picks);
            picks = picks.push(pick);
        }
        match pick {
            Some(Either::This(a)) => {
                first.push(a);
            },
            Some(Either::That(b)) => {
                second.push(b);
            },
            None => {},
        }
        i += 1;
    }
    assert(read_each(views, label@, picks));
    (first, second)
}

} // verus!
