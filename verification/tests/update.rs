//! The example tick systems, and in-place mutation through the
//! exclusive-mutable access path.

use ecs_core::advance_positions;
use ecs_core::apply_forces;
use ecs_core::update_state;
use ecs_core::ComponentAccess;
use ecs_core::EntityAccess;
use ecs_core::EntityBuilder;
use ecs_core::Force;
use ecs_core::Manager;
use ecs_core::Mass;
use ecs_core::State;

fn scenario_manager() -> Manager {
    // Entity A: State{x:0, y:10, vx:1, vy:0} and Mass{m:10}; entity B:
    // State{x:100, y:100, vx:100, vy:100} only; entity C: Force{fx:0, fy:-1}
    // only.  Values are stored in thousandths.
    let mut m = Manager::new();
    m.add_entity()
        .add(State { x: 0, y: 10_000, vx: 1_000, vy: 0 })
        .add(Mass { m: 10_000 });
    m.add_entity().add(State { x: 100_000, y: 100_000, vx: 100_000, vy: 100_000 });
    m.add_entity().add(Force { fx: 0, fy: -1_000 });
    m
}

fn state_of(m: &Manager, id: usize) -> State {
    let slot = EntityAccess::<State>::get(&m.entities[id]).unwrap();
    *ComponentAccess::<State>::get(&m.components, slot)
}

#[test]
fn one_tick_advances_b_by_its_velocity_only() {
    let mut m = scenario_manager();
    update_state(&mut m, 1_000);
    let b = state_of(&m, 1);
    // B has no Mass, so the force step is skipped for it.
    assert_eq!(b.x, 200_000);
    assert_eq!(b.y, 200_000);
    assert_eq!(b.vx, 100_000);
    assert_eq!(b.vy, 100_000);
}

#[test]
fn one_tick_adjusts_a_velocity_by_each_force_once() {
    let mut m = scenario_manager();
    update_state(&mut m, 1_000);
    let a = state_of(&m, 0);
    assert_eq!(a.x, 1_000);
    assert_eq!(a.y, 10_000);
    // C contributes one Force instance: vx shifts by 0/10 = 0 and vy by
    // -1/10 = -0.1 (that is, -100 thousandths), exactly once.
    assert_eq!(a.vx, 1_000);
    assert_eq!(a.vy, -100);
}

#[test]
fn advance_then_kick_in_two_separate_passes() {
    let mut m = scenario_manager();
    advance_positions(&mut m, 1_000);
    let a = state_of(&m, 0);
    assert_eq!(a.x, 1_000);
    assert_eq!(a.vy, 0);
    apply_forces(&mut m, 1_000);
    let a = state_of(&m, 0);
    assert_eq!(a.x, 1_000);
    assert_eq!(a.vy, -100);
}

#[test]
fn zero_time_step_changes_nothing() {
    let mut m = scenario_manager();
    update_state(&mut m, 0);
    let a = state_of(&m, 0);
    assert_eq!(a, State { x: 0, y: 10_000, vx: 1_000, vy: 0 });
    let b = state_of(&m, 1);
    assert_eq!(b, State { x: 100_000, y: 100_000, vx: 100_000, vy: 100_000 });
}

#[test]
fn tick_on_an_empty_manager_is_a_no_op() {
    let mut m = Manager::new();
    update_state(&mut m, 1_000);
    assert_eq!(m.entities.len(), 0);
    assert_eq!(m.components.state.len(), 0);
}

#[test]
fn exclusive_mutation_is_observed_by_later_reads() {
    let mut m = scenario_manager();
    let slot = EntityAccess::<State>::get(&m.entities[0]).unwrap();
    {
        let s = ComponentAccess::<State>::get_mut(&mut m.components, slot);
        s.x = 42;
        s.vy = -7;
    }
    // A subsequent read-only access observes the in-place mutation; the
    // owner id and every other entry stay as they were.
    let s = ComponentAccess::<State>::get(&m.components, slot);
    assert_eq!(s.x, 42);
    assert_eq!(s.vy, -7);
    assert_eq!(s.y, 10_000);
    let store: &Vec<(usize, State)> = ComponentAccess::<State>::raw_get(&m.components);
    assert_eq!(store[slot].0, 0);
    assert_eq!(store.len(), 2);
    assert_eq!(store[1].1, State { x: 100_000, y: 100_000, vx: 100_000, vy: 100_000 });
}

#[test]
fn every_force_instance_contributes_exactly_once() {
    let mut m = Manager::new();
    m.add_entity()
        .add(State { x: 0, y: 0, vx: 0, vy: 0 })
        .add(Mass { m: 10_000 });
    m.add_entity().add(Force { fx: 0, fy: -1_000 });
    m.add_entity().add(Force { fx: 0, fy: -2_000 });
    update_state(&mut m, 1_000);
    let a = state_of(&m, 0);
    // -1/10 and -2/10, in thousandths: -100 + -200.
    assert_eq!(a.vy, -300);
    assert_eq!(a.vx, 0);
}

#[test]
fn tick_skips_orphaned_store_entries() {
    let mut m = Manager::new();
    m.add_entity()
        .add(State { x: 1, y: 1, vx: 1, vy: 1 })
        .add(State { x: 5_000, y: 0, vx: 2_000, vy: 0 });
    update_state(&mut m, 1_000);
    let store: &Vec<(usize, State)> = ComponentAccess::<State>::raw_get(&m.components);
    // The slot resolves to the second entry, which advanced.
    assert_eq!(state_of(&m, 0), State { x: 7_000, y: 0, vx: 2_000, vy: 0 });
    // The orphaned first entry is still allocated and untouched.
    assert_eq!(store[0].1, State { x: 1, y: 1, vx: 1, vy: 1 });
}

#[test]
fn mutation_through_raw_get_mut_is_in_place() {
    let mut m = scenario_manager();
    {
        let store: &mut Vec<(usize, Force)> =
            ComponentAccess::<Force>::raw_get_mut(&mut m.components);
        store[0].1.fy = -2_000;
    }
    let f = ComponentAccess::<Force>::get(&m.components, 0);
    assert_eq!(f.fy, -2_000);
    assert_eq!(f.fx, 0);
}
