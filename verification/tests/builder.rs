//! The construction API: entity creation, fluent component attachment,
//! slot tracking, and the append-only stores.

use ecs_core::ComponentAccess;
use ecs_core::EntityAccess;
use ecs_core::EntityBuilder;
use ecs_core::Force;
use ecs_core::Manager;
use ecs_core::Mass;
use ecs_core::State;

#[test]
fn fresh_manager_is_empty() {
    let m = Manager::new();
    assert_eq!(m.entities.len(), 0);
    assert_eq!(m.components.state.len(), 0);
    assert_eq!(m.components.mass.len(), 0);
    assert_eq!(m.components.force.len(), 0);
}

#[test]
fn ids_are_assigned_in_creation_order() {
    let mut m = Manager::new();
    m.add_entity();
    m.add_entity();
    m.add_entity();
    assert_eq!(m.entities.len(), 3);
    for (k, e) in m.entities.iter().enumerate() {
        assert_eq!(e.id, k);
    }
}

#[test]
fn slot_is_some_exactly_for_added_types() {
    let mut m = Manager::new();
    m.add_entity()
        .add(State { x: 1, y: 2, vx: 3, vy: 4 })
        .add(Force { fx: 5, fy: 6 });
    let e = &m.entities[0];
    assert!(EntityAccess::<State>::get(e).is_some());
    assert!(EntityAccess::<Mass>::get(e).is_none());
    assert!(EntityAccess::<Force>::get(e).is_some());
}

#[test]
fn slot_resolves_to_added_value_and_owner() {
    let mut m = Manager::new();
    m.add_entity();
    m.add_entity().add(Mass { m: 7 });
    let e = &m.entities[1];
    let slot = EntityAccess::<Mass>::get(e).unwrap();
    let store: &Vec<(usize, Mass)> = ComponentAccess::<Mass>::raw_get(&m.components);
    assert_eq!(store[slot].0, 1);
    assert_eq!(store[slot].1.m, 7);
}

#[test]
fn adds_may_come_in_any_order_for_distinct_types() {
    let mut m = Manager::new();
    m.add_entity()
        .add(Mass { m: 9 })
        .add(State { x: 0, y: 0, vx: 0, vy: 0 });
    let e = &m.entities[0];
    assert!(EntityAccess::<State>::get(e).is_some());
    assert!(EntityAccess::<Mass>::get(e).is_some());
    assert!(EntityAccess::<Force>::get(e).is_none());
}

#[test]
fn double_add_resolves_to_second_value() {
    let mut m = Manager::new();
    m.add_entity().add(Mass { m: 1 }).add(Mass { m: 2 });
    let e = &m.entities[0];
    let slot = EntityAccess::<Mass>::get(e).unwrap();
    assert_eq!(
        ComponentAccess::<Mass>::get(&m.components, slot).m,
        2
    );
    // The first entry stays allocated but is unreachable from the entity:
    // a known limitation of the append-only design, not reclaimed.
    let store: &Vec<(usize, Mass)> = ComponentAccess::<Mass>::raw_get(&m.components);
    assert_eq!(store.len(), 2);
    assert_eq!(store[0].1.m, 1);
    assert_eq!(slot, 1);
}

#[test]
fn store_lengths_never_decrease() {
    let mut m = Manager::new();
    let mut prev: usize = 0;
    m.add_entity().add(Mass { m: 1 });
    let len1 = m.components.mass.len();
    assert!(len1 >= prev);
    prev = len1;
    m.add_entity().add(Mass { m: 2 }).add(Mass { m: 3 });
    let len2 = m.components.mass.len();
    assert!(len2 >= prev);
    prev = len2;
    m.add_entity();
    assert!(m.components.mass.len() >= prev);
    assert_eq!(m.components.mass.len(), 3);
}

#[test]
fn set_overwrites_and_reset_returns_prior() {
    let mut m = Manager::new();
    m.add_entity().add(State { x: 1, y: 1, vx: 1, vy: 1 });
    let e = &mut m.entities[0];
    assert_eq!(*EntityAccess::<State>::get(e), Some(0));
    EntityAccess::<State>::set(e, 5);
    assert_eq!(*EntityAccess::<State>::get(e), Some(5));
    let prior = EntityAccess::<State>::reset(e);
    assert_eq!(prior, Some(5));
    assert_eq!(*EntityAccess::<State>::get(e), None);
    let again = EntityAccess::<State>::reset(e);
    assert_eq!(again, None);
}

#[test]
fn entity_get_mut_writes_the_slot() {
    let mut m = Manager::new();
    m.add_entity();
    let e = &mut m.entities[0];
    *EntityAccess::<Force>::get_mut(e) = Some(3);
    assert_eq!(*EntityAccess::<Force>::get(e), Some(3));
    assert_eq!(*EntityAccess::<State>::get(e), None);
    assert_eq!(*EntityAccess::<Mass>::get(e), None);
}

#[test]
fn component_add_returns_successive_positions() {
    let mut m = Manager::new();
    let i0 = ComponentAccess::<Force>::add(&mut m.components, Force { fx: 1, fy: 2 }, 0);
    let i1 = ComponentAccess::<Force>::add(&mut m.components, Force { fx: 3, fy: 4 }, 9);
    assert_eq!(i0, 0);
    assert_eq!(i1, 1);
    let store: &Vec<(usize, Force)> = ComponentAccess::<Force>::raw_get(&m.components);
    assert_eq!(store[0], (0, Force { fx: 1, fy: 2 }));
    assert_eq!(store[1], (9, Force { fx: 3, fy: 4 }));
}
