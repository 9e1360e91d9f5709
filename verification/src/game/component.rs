//! Components that are kept as boxed objects rather than as bytes, and the
//! table that files them by the name of their type.

use std::any::Any;
use vstd::prelude::*;
use vstd::string::StringExecFns;
use crate::game::component_laws::lemma_held_by_push;

verus! {

/// A borrowed value whose type is known only at run time.
///
/// Holds a `&dyn Any` of the standard library; nothing is known of it here.
#[verifier::external_body]
pub struct Erased<'a> {
    inner: &'a dyn Any,
}

/// A mutably borrowed value whose type is known only at run time.
///
/// Holds a `&mut dyn Any` of the standard library; nothing is known of it here.
#[verifier::external_body]
pub struct ErasedMut<'a> {
    inner: &'a mut dyn Any,
}

/// The coercion of a reference to `&dyn Any` of the standard library: the
/// type of `value` is forgotten. Nothing is claimed of the result.
#[verifier::external_body]
fn erase<'a, T: 'static>(value: &'a T) -> Erased<'a> {
    Erased { inner: value }
}

/// The coercion of a reference to `&mut dyn Any` of the standard library: the
/// type of `value` is forgotten. Nothing is claimed of the result.
#[verifier::external_body]
fn erase_mut<'a, T: 'static>(value: &'a mut T) -> ErasedMut<'a> {
    ErasedMut { inner: value }
}

/// `<dyn Any>::downcast_ref` of the standard library: the value as a `T` if a
/// `T` is what it is. Nothing is claimed of the result.
#[verifier::external_body]
fn downcast_ref<'a, T: 'static>(erased: Erased<'a>) -> Option<&'a T> {
    erased.inner.downcast_ref::<T>()
}

/// `<dyn Any>::downcast_mut` of the standard library: the value as a `T` if a
/// `T` is what it is. Nothing is claimed of the result.
#[verifier::external_body]
fn downcast_mut<'a, T: 'static>(erased: ErasedMut<'a>) -> Option<&'a mut T> {
    erased.inner.downcast_mut::<T>()
}

/// A cast to a type that the component is not.
#[derive(Debug, PartialEq, Eq)]
pub struct CastError {
    /// The name that the component gave for itself.
    pub found: String,
    /// The name of the type that was asked for.
    pub wanted: String,
}

impl CastError {
    /// The text of the error.
    pub open spec fn text(self) -> Seq<char> {
        "Component of "@ + self.found@ + " was wrongly tried to be cast as "@ + self.wanted@
    }

    /// The error in words.
    pub fn message(&self) -> (r: String)
        ensures
            r@ == self.text(),
    {
        let mut out = "Component of ".to_string();
        out.append(self.found.as_str());
        out.append(" was wrongly tried to be cast as ");
        out.append(self.wanted.as_str());
        out
    }
}

/// A type of components: what the author of a component writes.
pub trait ComponentType: Sized {
    /// The name of this type of component.
    fn static_type_identifier() -> &'static str;
}

/// `name` is a name that `T` gives for itself.
pub open spec fn named<T: ComponentType>(name: Seq<char>) -> bool {
    exists|s: &'static str| s@ == name && #[trigger] call_ensures(T::static_type_identifier, (), s)
}

/// A component that lives in a box of its own. Every [`ComponentType`] is one.
pub trait Component {
    /// A name that the component may give for its type.
    spec fn names(&self, name: Seq<char>) -> bool;

    /// The name of the type of this component.
    fn instance_type_identifier(&self) -> (name: &'static str)
        ensures
            self.names(name@),
    ;

    /// The component without its type, for a cast.
    fn erased(&self) -> Erased<'_>;

    /// The component without its type, for a cast that allows writing.
    fn erased_mut(&mut self) -> ErasedMut<'_>;
}

impl<T: ComponentType + 'static> Component for T {
    open spec fn names(&self, name: Seq<char>) -> bool {
        named::<T>(name)
    }

    fn instance_type_identifier(&self) -> (name: &'static str) {
        T::static_type_identifier()
    }

    fn erased(&self) -> (r: Erased<'_>)
        ensures
            erases(self, r),
    {
        erase(self)
    }

    fn erased_mut(&mut self) -> (r: ErasedMut<'_>)
        ensures
            exists|value: &mut T|
                *value == *old(self) && *final(value) == *final(self) && #[trigger] erases_mut(
                    value,
                    r,
                ),
    {
        let ghost after = *final(self);
        let r = erase_mut(self);
        proof {
            let handed = choose|value: &mut T|
                *value == *old(self) && *final(value) == after && #[trigger] call_ensures(
                    erase_mut::<T>,
                    (value,),
                    r,
                );
            assert(erases_mut(handed, r));
        }
        r
    }
}

impl dyn Component {
    /// The component as a `T`. Refused when the component does not go by the
    /// name of `T`, or goes by it and is no `T`.
    pub fn as_type<T: ComponentType + 'static>(&self) -> (r: Result<&T, CastError>)
        ensures
            match r {
                Ok(_) => exists|name: Seq<char>| self.names(name) && named::<T>(name),
                Err(e) => self.names(e.found@) && named::<T>(e.wanted@),
            },
    {
        let wanted = T::static_type_identifier();
        let found = self.instance_type_identifier();
        let wanted_name = wanted.to_string();
        let found_name = found.to_string();
        if wanted_name != found_name {
            return Err(CastError { found: found_name, wanted: wanted_name });
        }
        match downcast_ref::<T>(self.erased()) {
            Some(value) => Ok(value),
            None => Err(CastError { found: found_name, wanted: wanted_name }),
        }
    }

    /// The component as a `T`, for writing. Refused as [`Self::as_type`]
    /// refuses.
    pub fn as_mut_type<T: ComponentType + 'static>(&mut self) -> (r: Result<&mut T, CastError>)
        ensures
            match r {
                Ok(_) => exists|name: Seq<char>| old(self).names(name) && named::<T>(name),
                Err(e) => old(self).names(e.found@) && named::<T>(e.wanted@),
            },
    {
        let wanted = T::static_type_identifier();
        let found = self.instance_type_identifier();
        let wanted_name = wanted.to_string();
        let found_name = found.to_string();
        if wanted_name != found_name {
            return Err(CastError { found: found_name, wanted: wanted_name });
        }
        assert(old(self).names(found@) && named::<T>(found@));
        match downcast_mut::<T>(self.erased_mut()) {
            Some(value) => Ok(value),
            None => Err(CastError { found: found_name, wanted: wanted_name }),
        }
    }
}

/// A component together with the identifier of the entity it belongs to.
pub struct ComponentHolder {
    pub entity_id: u64,
    pub data: Box<dyn Component>,
}

/// The components of one type, as a value: the name of the type, and its
/// holders in the order in which they were filed.
pub struct RowView {
    pub name: Seq<char>,
    pub holders: Seq<ComponentHolder>,
}

/// The components of one type.
pub struct ComponentRow {
    name: String,
    holders: Vec<ComponentHolder>,
}

impl View for ComponentRow {
    type V = RowView;

    closed spec fn view(&self) -> RowView {
        RowView { name: self.name@, holders: self.holders@ }
    }
}

/// The holders in `holders` that belong to `entity_id`, in order.
pub open spec fn held_by(holders: Seq<ComponentHolder>, entity_id: u64) -> Seq<ComponentHolder>
    decreases holders.len(),
{
    if holders.len() == 0 {
        Seq::empty()
    } else {
        let before = held_by(holders.drop_last(), entity_id);
        if holders.last().entity_id == entity_id {
            before.push(holders.last())
        } else {
            before
        }
    }
}

/// The holders in `rows` that belong to `entity_id`: row by row, in order.
pub open spec fn held_in(rows: Seq<RowView>, entity_id: u64) -> Seq<ComponentHolder>
    decreases rows.len(),
{
    if rows.len() == 0 {
        Seq::empty()
    } else {
        held_in(rows.drop_last(), entity_id) + held_by(rows.last().holders, entity_id)
    }
}

/// `i` is the index of the row called `name`.
pub open spec fn is_row(rows: Seq<RowView>, name: Seq<char>, i: int) -> bool {
    0 <= i < rows.len() && rows[i].name == name
}

/// No two rows go by the same name.
pub open spec fn rows_wf(rows: Seq<RowView>) -> bool {
    forall|i: int, j: int|
        0 <= i < j < rows.len() ==> (#[trigger] rows[i]).name != (#[trigger] rows[j]).name
}

/// The rows after `holder` was filed under `name`: at the end of the row of
/// that name, or in a new last row when there is none.
pub open spec fn filed(rows: Seq<RowView>, name: Seq<char>, holder: ComponentHolder) -> Seq<RowView> {
    if exists|i: int| is_row(rows, name, i) {
        let i = choose|i: int| is_row(rows, name, i);
        rows.update(i, RowView { name, holders: rows[i].holders.push(holder) })
    } else {
        rows.push(RowView { name, holders: seq![holder] })
    }
}

/// All boxed components of a simulation, filed by the name of their type.
pub struct ComponentTable {
    rows: Vec<ComponentRow>,
}

impl View for ComponentTable {
    type V = Seq<RowView>;

    closed spec fn view(&self) -> Seq<RowView> {
        self.rows@.map_values(|r: ComponentRow| r@)
    }
}

impl ComponentTable {
    /// What holds of every table at every moment: no two rows share a name.
    #[verifier::type_invariant]
    pub open spec fn inv(&self) -> bool {
        rows_wf(self@)
    }

    /// A table without components.
    pub fn new() -> (r: Self)
        ensures
            r@ == Seq::<RowView>::empty(),
            rows_wf(r@),
    {
        assert(Seq::<ComponentRow>::empty().map_values(|r: ComponentRow| r@) =~= Seq::<
            RowView,
        >::empty());
        ComponentTable { rows: Vec::new() }
    }

    /// The components of the entity `entity_id`: type by type in the order in
    /// which the types first came in, and within a type in the order in which
    /// the components were filed.
    pub fn entity_components(&self, entity_id: u64) -> (out: Vec<&ComponentHolder>)
        ensures
            out@.map_values(|h: &ComponentHolder| *h) == held_in(self@, entity_id),
    {
        let mut out: Vec<&ComponentHolder> = Vec::new();
        let mut i: usize = 0;
        while i < self.rows.len()
            invariant
                0 <= i <= self.rows@.len(),
                out@.map_values(|h: &ComponentHolder| *h) == held_in(
                    self@.subrange(0, i as int),
                    entity_id,
                ),
            decreases self.rows@.len() - i,
        {
            let row = &self.rows[i];
            let ghost before = out@.map_values(|h: &ComponentHolder| *h);
            let mut j: usize = 0;
            while j < row.holders.len()
                invariant
                    0 <= j <= row.holders@.len(),
                    out@.map_values(|h: &ComponentHolder| *h) == before + held_by(
                        row.holders@.subrange(0, j as int),
                        entity_id,
                    ),
                decreases row.holders@.len() - j,
            {
                let holder = &row.holders[j];
                let ghost seen = row.holders@.subrange(0, j as int);
                let ghost out_before = out@.map_values(|h: &ComponentHolder| *h);
                proof {
                    assert(row.holders@.subrange(0, j + 1) =~= seen.push(*holder));
                    lemma_held_by_push(seen, *holder, entity_id);
                }
                if holder.entity_id == entity_id {
                    out.push(holder);
                    assert(out@.map_values(|h: &ComponentHolder| *h) =~= out_before.push(*holder));
                }
                j += 1;
            }
            proof {
                assert(row.holders@.subrange(0, j as int) =~= row.holders@);
                let next = self@.subrange(0, i + 1);
                assert(next.drop_last() =~= self@.subrange(0, i as int));
            }
            i += 1;
        }
        assert(self@.subrange(0, i as int) =~= self@);
        out
    }

    /// Files a component under the name it gives for its type.
    pub fn insert_component_holder(&mut self, component_holder: ComponentHolder)
        ensures
            rows_wf(old(self)@),
            rows_wf(final(self)@),
            exists|name: Seq<char>|
                #![trigger component_holder.data.names(name)]
                component_holder.data.names(name) && final(self)@ == filed(
                    old(self)@,
                    name,
                    component_holder,
                ),
    {
        proof {
            use_type_invariant(&*self);
        }
        let name = component_holder.data.instance_type_identifier().to_string();
        let mut taken = ComponentTable::new();
        core::mem::swap(self, &mut taken);
        let ComponentTable { mut rows } = taken;
        let ghost before = rows@.map_values(|r: ComponentRow| r@);
        let mut i: usize = 0;
        while i < rows.len() && rows[i].name != name
            invariant
                rows@.map_values(|r: ComponentRow| r@) == before,
                0 <= i <= rows@.len(),
                forall|k: int| 0 <= k < i ==> !is_row(before, name@, k),
            decreases rows@.len() - i,
        {
            i += 1;
        }
        if i < rows.len() {
            assert(is_row(before, name@, i as int));
            rows[i].holders.push(component_holder);
        } else {
            let mut holders: Vec<ComponentHolder> = Vec::new();
            holders.push(component_holder);
            rows.push(ComponentRow { name, holders });
            assert forall|k: int| 0 <= k < before.len() implies (#[trigger] before[k]).name
                != name@ by {
                assert(!is_row(before, name@, k));
            }
        }
        proof {
            let after = rows@.map_values(|r: ComponentRow| r@);
            assert(forall|k: int|
                0 <= k < before.len() ==> (#[trigger] after[k]).name == before[k].name);
        }
        *self = ComponentTable { rows };
    }
}

/// `erased` is what forgetting the type of `value` gives.
pub closed spec fn erases<T: 'static>(value: &T, erased: Erased<'_>) -> bool {
    call_ensures(erase::<T>, (value,), erased)
}

/// `erased` is what forgetting the type of `value` gives, for writing.
pub closed spec fn erases_mut<T: 'static>(value: &mut T, erased: ErasedMut<'_>) -> bool {
    call_ensures(erase_mut::<T>, (value,), erased)
}

} // verus!
