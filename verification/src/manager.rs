//! The manager: sole owner of the entity sequence and of all component
//! stores, and creation root for entities.
//!
//! Entities are created one at a time, append-only, never destroyed or
//! renumbered: an entity's id equals its position in the entity sequence.
//! After `add_entity`, the manager itself acts as the builder for the
//! freshly created entity, so components chain on fluently through
//! [`EntityBuilder::add`].

use vstd::prelude::*;
use crate::schema::Entity;
use crate::schema::Components;
use crate::traits::EntityAccess;
use crate::traits::ComponentAccess;
use crate::traits::EntityBuilder;

verus! {

/// Owner of the entity sequence and the full collection of stores.
#[derive(Debug)]
pub struct Manager {
    pub entities: Vec<Entity>,
    pub components: Components,
}

impl Manager {
    /// Well-formedness: ids equal positions, and every present slot points
    /// at a currently-occupied position of its type's store.
    pub open spec fn wf(self) -> bool {
        forall|k: int| 0 <= k < self.entities@.len() ==> {
            let e = #[trigger] self.entities@[k];
            &&& e.id == k
            &&& (e.state is Some ==> e.state->0 < self.components.state@.len())
            &&& (e.mass is Some ==> e.mass->0 < self.components.mass@.len())
            &&& (e.force is Some ==> e.force->0 < self.components.force@.len())
        }
    }

    /// An empty manager: no entities, empty stores.
    pub fn new() -> (m: Manager)
        ensures
            m.entities@.len() == 0,
            m.components.state@.len() == 0,
            m.components.mass@.len() == 0,
            m.components.force@.len() == 0,
            m.wf(),
    {
        Manager { entities: Vec::new(), components: Components::new() }
    }

    /// Create a fresh entity whose id is the current entity count, holding
    /// no components; the manager is returned as the builder scoped to it.
    pub fn add_entity(&mut self) -> (r: &mut Manager)
        ensures
            r.entities@ == old(self).entities@.push(
                (Entity {
                    id: old(self).entities@.len() as usize,
                    state: None,
                    mass: None,
                    force: None,
                }),
            ),
            r.components.state@ == old(self).components.state@,
            r.components.mass@ == old(self).components.mass@,
            r.components.force@ == old(self).components.force@,
            r.building(),
            old(self).wf() ==> r.wf(),
            *final(self) == *final(r),
    {
        let id = self.entities.len();
        self.entities.push(Entity::new(id));
        self
    }
}

impl EntityBuilder<Entity, Components> for Manager {
    open spec fn cur_entity(&self) -> Entity {
        self.entities@.last()
    }

    open spec fn cur_comps(&self) -> Components {
        self.components
    }

    open spec fn cur_id(&self) -> usize {
        self.entities@.last().id
    }

    open spec fn building(&self) -> bool {
        self.entities@.len() > 0
    }

    open spec fn parts_updated_to(&self, e: Entity, c: Components, next: Manager) -> bool {
        &&& next.entities@ == self.entities@.update(self.entities@.len() - 1, e)
        &&& next.components.state@ == c.state@
        &&& next.components.mass@ == c.mass@
        &&& next.components.force@ == c.force@
    }

    fn add<T>(&mut self, t: T) -> (r: &mut Manager) where
        Entity: EntityAccess<T>,
        Components: ComponentAccess<T>,
    {
        builder_add(self, t)
    }
}

/// Append `t` to `T`'s store, owned by the entity under construction, and
/// overwrite that entity's `T` slot with the assigned position.
fn builder_add<T>(m: &mut Manager, t: T) -> (r: &mut Manager) where
    Entity: EntityAccess<T>,
    Components: ComponentAccess<T>,

    requires
        old(m).entities@.len() > 0,
    ensures
        <Manager as EntityBuilder<Entity, Components>>::building(r),
        <Manager as EntityBuilder<Entity, Components>>::cur_entity(r)
            == <Entity as EntityAccess<T>>::with_slot(
            &old(m).entities@.last(),
            Some(<Components as ComponentAccess<T>>::entries(&old(m).components).len() as usize),
        ),
        <Components as ComponentAccess<T>>::updated_to(
            &old(m).components,
            <Components as ComponentAccess<T>>::entries(&old(m).components).push(
                (old(m).entities@.last().id, t),
            ),
            r.components,
        ),
        r.entities@ == old(m).entities@.update(
            old(m).entities@.len() - 1,
            <Manager as EntityBuilder<Entity, Components>>::cur_entity(r),
        ),
        *final(m) == *final(r),
{
    let n = m.entities.len();
    let eid = m.entities[n - 1].id;
    let slot = <Components as ComponentAccess<T>>::add(&mut m.components, t, eid);
    let e = &mut m.entities[n - 1];
    <Entity as EntityAccess<T>>::set(e, slot);
    m
}

} // verus!
