//! The query/join engine: type-presence filtering, visit order, and the
//! single-store scan primitive.

use ecs_core::store_values;
use ecs_core::ComponentAccess;
use ecs_core::EntityAccess;
use ecs_core::EntityBuilder;
use ecs_core::Force;
use ecs_core::Manager;
use ecs_core::Mass;
use ecs_core::Query;
use ecs_core::State;

fn scenario_manager() -> Manager {
    // Entity A: State{x:0, y:10, vx:1, vy:0} and Mass{m:10}; entity B:
    // State{x:100, y:100, vx:100, vy:100} only; entity C: Force{fx:0, fy:-1}
    // only.  Values are stored in thousandths.
    let mut m = Manager::new();
    m.add_entity()
        .add(State { x: 0, y: 10_000, vx: 1_000, vy: 0 })
        .add(Mass { m: 10_000 });
    m.add_entity().add(State { x: 100_000, y: 100_000, vx: 100_000, vy: 100_000 });
    m.add_entity().add(Force { fx: 0, fy: -1_000 });
    m
}

#[test]
fn state_and_mass_query_visits_exactly_a() {
    let m = scenario_manager();
    let ids = m.matching_ids(Query { state: true, mass: true, force: false });
    assert_eq!(ids, vec![0]);
    let e = &m.entities[0];
    let si = EntityAccess::<State>::get(e).unwrap();
    let mi = EntityAccess::<Mass>::get(e).unwrap();
    let s = ComponentAccess::<State>::get(&m.components, si);
    let mass = ComponentAccess::<Mass>::get(&m.components, mi);
    assert_eq!(s.x, 0);
    assert_eq!(s.y, 10_000);
    assert_eq!(mass.m, 10_000);
}

#[test]
fn query_visits_matches_in_ascending_id_order_and_no_others() {
    let mut m = Manager::new();
    m.add_entity().add(Mass { m: 1 });
    m.add_entity().add(State { x: 0, y: 0, vx: 0, vy: 0 }).add(Mass { m: 2 });
    m.add_entity().add(State { x: 0, y: 0, vx: 0, vy: 0 });
    m.add_entity().add(Mass { m: 3 }).add(State { x: 0, y: 0, vx: 0, vy: 0 });
    let both = m.matching_ids(Query { state: true, mass: true, force: false });
    assert_eq!(both, vec![1, 3]);
    let state_only = m.matching_ids(Query { state: true, mass: false, force: false });
    assert_eq!(state_only, vec![1, 2, 3]);
    let force = m.matching_ids(Query { state: false, mass: false, force: true });
    assert_eq!(force, Vec::<usize>::new());
}

#[test]
fn empty_requirement_visits_every_entity() {
    let m = scenario_manager();
    let ids = m.matching_ids(Query { state: false, mass: false, force: false });
    assert_eq!(ids, vec![0, 1, 2]);
}

#[test]
fn query_on_empty_manager_visits_nothing() {
    let m = Manager::new();
    let ids = m.matching_ids(Query { state: true, mass: false, force: false });
    assert!(ids.is_empty());
}

#[test]
fn requirement_is_a_conjunction_of_presence() {
    let m = scenario_manager();
    // Entity B holds State only: it matches any requirement within {State}.
    let b = &m.entities[1];
    assert!(EntityAccess::<State>::get(b).is_some());
    assert!(EntityAccess::<Mass>::get(b).is_none());
    let ids = m.matching_ids(Query { state: true, mass: false, force: true });
    assert_eq!(ids, Vec::<usize>::new());
}

#[test]
fn store_scan_yields_all_values_regardless_of_owner() {
    let mut m = Manager::new();
    m.add_entity().add(Force { fx: 1, fy: 2 });
    m.add_entity().add(Mass { m: 5 });
    m.add_entity().add(Force { fx: 3, fy: 4 });
    let fs: Vec<Force> = store_values(&m.components);
    assert_eq!(fs, vec![Force { fx: 1, fy: 2 }, Force { fx: 3, fy: 4 }]);
    let ms: Vec<Mass> = store_values(&m.components);
    assert_eq!(ms, vec![Mass { m: 5 }]);
}
