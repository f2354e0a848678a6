//! The registered component schema: the payload record types, the entity
//! record, and the per-type component stores.
//!
//! The registered type set is closed: `State`, `Mass` and `Force`.  Every
//! field of `Entity` and `Components` below is derived from that set, one
//! optional slot and one store per type.  Payload values are plain integers;
//! a host that wants fractional quantities reads them at a fixed scale.

use vstd::prelude::*;
use crate::traits::EntityAccess;
use crate::traits::ComponentAccess;

verus! {

/// Position and velocity payload.
#[derive(Clone, Copy, Debug, PartialEq, Eq, Structural)]
pub struct State {
    pub x: i64,
    pub y: i64,
    pub vx: i64,
    pub vy: i64,
}

/// Mass payload.
#[derive(Clone, Copy, Debug, PartialEq, Eq, Structural)]
pub struct Mass {
    pub m: i64,
}

/// Force payload.
#[derive(Clone, Copy, Debug, PartialEq, Eq, Structural)]
pub struct Force {
    pub fx: i64,
    pub fy: i64,
}

/// One entity record: a stable sequential id, plus one optional slot index
/// per registered component type.  A slot of `Some(i)` points at position
/// `i` of that type's store.
#[derive(Clone, Copy, Debug)]
pub struct Entity {
    pub id: usize,
    pub state: Option<usize>,
    pub mass: Option<usize>,
    pub force: Option<usize>,
}

impl Entity {
    /// A fresh entity holding no components.
    pub fn new(id: usize) -> (e: Entity)
        ensures
            e.id == id,
            e.state is None,
            e.mass is None,
            e.force is None,
    {
        Entity { id, state: None, mass: None, force: None }
    }
}

/// The full collection of component stores, one dense append-only sequence
/// of `(owner id, value)` pairs per registered type.
#[derive(Debug)]
pub struct Components {
    pub state: Vec<(usize, State)>,
    pub mass: Vec<(usize, Mass)>,
    pub force: Vec<(usize, Force)>,
}

impl Components {
    /// Empty stores for every registered type.
    pub fn new() -> (c: Components)
        ensures
            c.state@.len() == 0,
            c.mass@.len() == 0,
            c.force@.len() == 0,
    {
        Components { state: Vec::new(), mass: Vec::new(), force: Vec::new() }
    }
}

/// Mutable projection to the entity's `State` slot field, with the
/// two-state contract the capability binding's `get_mut` promises.
fn state_slot_mut(e: &mut Entity) -> (r: &mut Option<usize>)
    ensures
        *r == <Entity as EntityAccess<State>>::slot_spec(old(e)),
        *final(e) == <Entity as EntityAccess<State>>::with_slot(old(e), *final(r)),
{
    &mut e.state
}

/// Mutable projection to the entity's `Mass` slot field.
fn mass_slot_mut(e: &mut Entity) -> (r: &mut Option<usize>)
    ensures
        *r == <Entity as EntityAccess<Mass>>::slot_spec(old(e)),
        *final(e) == <Entity as EntityAccess<Mass>>::with_slot(old(e), *final(r)),
{
    &mut e.mass
}

/// Mutable projection to the entity's `Force` slot field.
fn force_slot_mut(e: &mut Entity) -> (r: &mut Option<usize>)
    ensures
        *r == <Entity as EntityAccess<Force>>::slot_spec(old(e)),
        *final(e) == <Entity as EntityAccess<Force>>::with_slot(old(e), *final(r)),
{
    &mut e.force
}

impl EntityAccess<State> for Entity {
    open spec fn slot_spec(&self) -> Option<usize> {
        self.state
    }

    open spec fn with_slot(&self, s: Option<usize>) -> Entity {
        Entity { id: self.id, state: s, mass: self.mass, force: self.force }
    }

    proof fn lemma_with_slot(&self, s: Option<usize>) {
    }

    fn get(&self) -> &Option<usize> {
        &self.state
    }

    fn get_mut(&mut self) -> &mut Option<usize> {
        state_slot_mut(self)
    }
}

impl EntityAccess<Mass> for Entity {
    open spec fn slot_spec(&self) -> Option<usize> {
        self.mass
    }

    open spec fn with_slot(&self, s: Option<usize>) -> Entity {
        Entity { id: self.id, state: self.state, mass: s, force: self.force }
    }

    proof fn lemma_with_slot(&self, s: Option<usize>) {
    }

    fn get(&self) -> &Option<usize> {
        &self.mass
    }

    fn get_mut(&mut self) -> &mut Option<usize> {
        mass_slot_mut(self)
    }
}

impl EntityAccess<Force> for Entity {
    open spec fn slot_spec(&self) -> Option<usize> {
        self.force
    }

    open spec fn with_slot(&self, s: Option<usize>) -> Entity {
        Entity { id: self.id, state: self.state, mass: self.mass, force: s }
    }

    proof fn lemma_with_slot(&self, s: Option<usize>) {
    }

    fn get(&self) -> &Option<usize> {
        &self.force
    }

    fn get_mut(&mut self) -> &mut Option<usize> {
        force_slot_mut(self)
    }
}

impl ComponentAccess<State> for Components {
    open spec fn entries(&self) -> Seq<(usize, State)> {
        self.state@
    }

    open spec fn updated_to(&self, s: Seq<(usize, State)>, next: Components) -> bool {
        next.state@ == s && next.mass@ == self.mass@ && next.force@ == self.force@
    }

    proof fn lemma_updated_to(&self, s: Seq<(usize, State)>, next: Components) {
    }

    fn raw_get(&self) -> &Vec<(usize, State)> {
        &self.state
    }

    fn raw_get_mut(&mut self) -> &mut Vec<(usize, State)> {
        &mut self.state
    }
}

impl ComponentAccess<Mass> for Components {
    open spec fn entries(&self) -> Seq<(usize, Mass)> {
        self.mass@
    }

    open spec fn updated_to(&self, s: Seq<(usize, Mass)>, next: Components) -> bool {
        next.mass@ == s && next.state@ == self.state@ && next.force@ == self.force@
    }

    proof fn lemma_updated_to(&self, s: Seq<(usize, Mass)>, next: Components) {
    }

    fn raw_get(&self) -> &Vec<(usize, Mass)> {
        &self.mass
    }

    fn raw_get_mut(&mut self) -> &mut Vec<(usize, Mass)> {
        &mut self.mass
    }
}

impl ComponentAccess<Force> for Components {
    open spec fn entries(&self) -> Seq<(usize, Force)> {
        self.force@
    }

    open spec fn updated_to(&self, s: Seq<(usize, Force)>, next: Components) -> bool {
        next.force@ == s && next.state@ == self.state@ && next.mass@ == self.mass@
    }

    proof fn lemma_updated_to(&self, s: Seq<(usize, Force)>, next: Components) {
    }

    fn raw_get(&self) -> &Vec<(usize, Force)> {
        &self.force
    }

    fn raw_get_mut(&mut self) -> &mut Vec<(usize, Force)> {
        &mut self.force
    }
}

} // verus!
