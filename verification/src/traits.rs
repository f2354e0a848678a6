//! Type-directed capability traits.
//!
//! For each registered component type `T`, exactly one implementation of
//! [`EntityAccess<T>`] (on the entity record) and one of
//! [`ComponentAccess<T>`] (on the store collection) exists; generic code
//! reaches an entity's slot for `T`, and the store for `T`, through these
//! bindings alone, without runtime type tags.
//!
//! Each trait pairs a reader spec function (the slot, the store contents)
//! with a writer abstraction (`with_slot`, `updated_to`) so that a contract
//! can say both what a method returns and that it leaves every other slot
//! and store alone.  At a concrete implementation both are open spec
//! functions, so callers see the whole record.

use vstd::prelude::*;

verus! {

/// Per-type slot capability of the entity record: whether a component of
/// type `T` is present on this entity and where it sits in `T`'s store.
pub trait EntityAccess<T>: Sized {
    /// The slot this entity records for type `T`.
    spec fn slot_spec(&self) -> Option<usize>;

    /// This entity with its `T` slot replaced and every other field kept.
    spec fn with_slot(&self, s: Option<usize>) -> Self;

    /// Replacing the `T` slot stores exactly that slot.
    proof fn lemma_with_slot(&self, s: Option<usize>)
        ensures
            self.with_slot(s).slot_spec() == s,
    ;

    fn get(&self) -> (r: &Option<usize>)
        ensures
            *r == self.slot_spec(),
    ;

    fn get_mut(&mut self) -> (r: &mut Option<usize>)
        ensures
            *r == Self::slot_spec(old(self)),
            *final(self) == Self::with_slot(old(self), *final(r)),
    ;

    /// Overwrite the slot unconditionally.
    fn set(&mut self, i: usize)
        ensures
            *final(self) == Self::with_slot(old(self), Some(i)),
    {
        *self.get_mut() = Some(i);
    }

    /// Clear the slot and hand back its prior value.
    fn reset(&mut self) -> (r: Option<usize>)
        ensures
            r == Self::slot_spec(old(self)),
            *final(self) == Self::with_slot(old(self), None),
    {
        let ret: Option<usize> = *self.get();
        *self.get_mut() = None;
        ret
    }
}

/// Per-type store capability of the store collection: positional access to
/// the dense, append-only sequence of `(owner id, value)` pairs for `T`.
pub trait ComponentAccess<T>: Sized {
    /// The contents of the store for type `T`, in insertion order.
    spec fn entries(&self) -> Seq<(usize, T)>;

    /// `next` is `self` with the store for `T` holding exactly `s` and
    /// every other store unchanged.
    spec fn updated_to(&self, s: Seq<(usize, T)>, next: Self) -> bool;

    /// An update to the store for `T` stores exactly that sequence.
    proof fn lemma_updated_to(&self, s: Seq<(usize, T)>, next: Self)
        requires
            self.updated_to(s, next),
        ensures
            next.entries() == s,
    ;

    fn raw_get(&self) -> (r: &Vec<(usize, T)>)
        ensures
            r@ == self.entries(),
    ;

    fn raw_get_mut(&mut self) -> (r: &mut Vec<(usize, T)>)
        ensures
            r@ == Self::entries(old(self)),
            Self::updated_to(old(self), final(r)@, *final(self)),
    ;

    /// The value at an occupied position of `T`'s store.
    fn get(&self, i: usize) -> (r: &T)
        requires
            i < self.entries().len(),
        ensures
            *r == self.entries()[i as int].1,
    {
        &self.raw_get()[i].1
    }

    /// Exclusive-mutable access to the value at an occupied position; the
    /// owner id at that position and every other entry stay as they were.
    fn get_mut(&mut self, i: usize) -> (r: &mut T)
        requires
            i < Self::entries(old(self)).len(),
        ensures
            *r == Self::entries(old(self))[i as int].1,
            Self::updated_to(
                old(self),
                Self::entries(old(self)).update(
                    i as int,
                    (Self::entries(old(self))[i as int].0, *final(r)),
                ),
                *final(self),
            ),
    {
        let v = self.raw_get_mut();
        &mut v[i].1
    }

    /// Append a value owned by entity `id`; the assigned position is
    /// permanent and equals the store's length before the call.
    fn add(&mut self, t: T, id: usize) -> (i: usize)
        ensures
            i == Self::entries(old(self)).len(),
            Self::updated_to(old(self), Self::entries(old(self)).push((id, t)), *final(self)),
    {
        let v = self.raw_get_mut();
        v.push((id, t));
        v.len() - 1
    }
}

/// Fluent attachment of differently-typed component values to the one
/// entity most recently created: each `add` resolves the value's type to
/// its store and slot binding through the two capability traits.
pub trait EntityBuilder<E, C>: Sized {
    /// The entity currently under construction.
    spec fn cur_entity(&self) -> E;

    /// The store collection the builder appends into.
    spec fn cur_comps(&self) -> C;

    /// The id of the entity currently under construction.
    spec fn cur_id(&self) -> usize;

    /// Whether an entity is under construction.
    spec fn building(&self) -> bool;

    /// `next` is `self` with the entity under construction replaced by
    /// `e`, the store collection replaced by `c`, and everything else
    /// unchanged.
    spec fn parts_updated_to(&self, e: E, c: C, next: Self) -> bool;

    /// Attach one component value to the entity under construction:
    /// append it to `T`'s store, owned by that entity, and overwrite the
    /// entity's `T` slot with the new position.  Returns the builder
    /// itself, for chaining.
    ///
    /// A second attachment of the same type overwrites the slot and
    /// leaves the earlier store entry allocated but unreachable from the
    /// entity — a known limitation of the append-only design, kept
    /// deliberately rather than reclaimed.
    fn add<T>(&mut self, t: T) -> (r: &mut Self) where
        E: EntityAccess<T>,
        C: ComponentAccess<T>,

        requires
            Self::building(old(self)),
        ensures
            Self::building(r),
            Self::cur_entity(r) == <E as EntityAccess<T>>::with_slot(
                &Self::cur_entity(old(self)),
                Some(<C as ComponentAccess<T>>::entries(&Self::cur_comps(old(self))).len() as usize),
            ),
            <C as ComponentAccess<T>>::updated_to(
                &Self::cur_comps(old(self)),
                <C as ComponentAccess<T>>::entries(&Self::cur_comps(old(self))).push(
                    (Self::cur_id(old(self)), t),
                ),
                Self::cur_comps(r),
            ),
            Self::parts_updated_to(old(self), Self::cur_entity(r), Self::cur_comps(r), *r),
            *final(self) == *final(r),
    ;
}

} // verus!
