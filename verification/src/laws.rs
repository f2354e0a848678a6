//! Laws of the store: a ghost model of one builder session, and the
//! properties that hold of every sequence of attachments and of every
//! in-place mutation.
//!
//! A builder session attaches component values, one at a time and in any
//! type order, to the entity most recently created.  [`BuildModel`] is the
//! part of the manager such a session can touch — the entity under
//! construction and the three store contents — and [`apply_add`] is one
//! attachment exactly as the builder contract states it (the step lemmas
//! below prove that correspondence).  Over this model, slots are shown to
//! track the last attachment of each type, and stores are shown to be
//! append-only.

use vstd::prelude::*;
use crate::schema::State;
use crate::schema::Mass;
use crate::schema::Force;
use crate::schema::Entity;
use crate::schema::Components;
use crate::traits::EntityAccess;
use crate::traits::ComponentAccess;
use crate::manager::Manager;
use crate::systems::state_slots_unique;

verus! {

/// What one builder session can touch: the entity under construction and
/// the contents of every store.
#[verifier::ext_equal]
pub struct BuildModel {
    pub e: Entity,
    pub state: Seq<(usize, State)>,
    pub mass: Seq<(usize, Mass)>,
    pub force: Seq<(usize, Force)>,
}

/// One attachment of a component value, by registered type.
pub enum CompAdd {
    AddState(State),
    AddMass(Mass),
    AddForce(Force),
}

/// The session view of a manager: its last entity and its stores.
pub open spec fn build_model(m: Manager) -> BuildModel {
    BuildModel {
        e: m.entities@.last(),
        state: m.components.state@,
        mass: m.components.mass@,
        force: m.components.force@,
    }
}

/// One attachment: append `(owner id, value)` to the value's store and
/// overwrite the entity's slot for that type with the new position.
pub open spec fn apply_add(s: BuildModel, op: CompAdd) -> BuildModel {
    match op {
        CompAdd::AddState(v) => BuildModel {
            e: Entity {
                id: s.e.id,
                state: Some(s.state.len() as usize),
                mass: s.e.mass,
                force: s.e.force,
            },
            state: s.state.push((s.e.id, v)),
            mass: s.mass,
            force: s.force,
        },
        CompAdd::AddMass(v) => BuildModel {
            e: Entity {
                id: s.e.id,
                state: s.e.state,
                mass: Some(s.mass.len() as usize),
                force: s.e.force,
            },
            state: s.state,
            mass: s.mass.push((s.e.id, v)),
            force: s.force,
        },
        CompAdd::AddForce(v) => BuildModel {
            e: Entity {
                id: s.e.id,
                state: s.e.state,
                mass: s.e.mass,
                force: Some(s.force.len() as usize),
            },
            state: s.state,
            mass: s.mass,
            force: s.force.push((s.e.id, v)),
        },
    }
}

/// A whole session: the attachments applied in order.
pub open spec fn replay_adds(s: BuildModel, ops: Seq<CompAdd>) -> BuildModel
    decreases ops.len(),
{
    if ops.len() == 0 {
        s
    } else {
        apply_add(replay_adds(s, ops.drop_last()), ops.last())
    }
}

/// The largest index of `ops` holding a `State` attachment, or -1.
pub open spec fn last_add_state(ops: Seq<CompAdd>) -> int
    decreases ops.len(),
{
    if ops.len() == 0 {
        -1
    } else if ops.last() is AddState {
        ops.len() - 1
    } else {
        last_add_state(ops.drop_last())
    }
}

/// The largest index of `ops` holding a `Mass` attachment, or -1.
pub open spec fn last_add_mass(ops: Seq<CompAdd>) -> int
    decreases ops.len(),
{
    if ops.len() == 0 {
        -1
    } else if ops.last() is AddMass {
        ops.len() - 1
    } else {
        last_add_mass(ops.drop_last())
    }
}

/// The largest index of `ops` holding a `Force` attachment, or -1.
pub open spec fn last_add_force(ops: Seq<CompAdd>) -> int
    decreases ops.len(),
{
    if ops.len() == 0 {
        -1
    } else if ops.last() is AddForce {
        ops.len() - 1
    } else {
        last_add_force(ops.drop_last())
    }
}

/// The builder contract for a `State` attachment, read at its concrete
/// implementation, is exactly one session-model step.
pub proof fn lemma_add_state_step(m0: Manager, m1: Manager, v: State)
    requires
        m0.entities@.len() > 0,
        m1.entities@ == m0.entities@.update(
            m0.entities@.len() - 1,
            <Entity as EntityAccess<State>>::with_slot(
                &m0.entities@.last(),
                Some(m0.components.state@.len() as usize),
            ),
        ),
        <Components as ComponentAccess<State>>::updated_to(
            &m0.components,
            m0.components.state@.push((m0.entities@.last().id, v)),
            m1.components,
        ),
    ensures
        build_model(m1) =~= apply_add(build_model(m0), CompAdd::AddState(v)),
        m0.wf() ==> m1.wf(),
        m0.wf() && state_slots_unique(m0) ==> state_slots_unique(m1),
{
    broadcast use vstd::std_specs::vec::axiom_spec_len;

    assert(m0.components.state.len() == m0.components.state@.len());
    if m0.wf() && state_slots_unique(m0) {
        let last = m1.entities@.len() - 1;
        assert forall|k1: int, k2: int|
            0 <= k1 < k2 < m1.entities@.len() && m1.entities@[k1].state is Some
                && m1.entities@[k2].state is Some
                implies m1.entities@[k1].state->0 != m1.entities@[k2].state->0 by {
            if k2 == last {
                assert(m0.entities@[k1].state->0 < m0.components.state@.len());
            }
        }
    }
}

/// The builder contract for a `Mass` attachment, read at its concrete
/// implementation, is exactly one session-model step.
pub proof fn lemma_add_mass_step(m0: Manager, m1: Manager, v: Mass)
    requires
        m0.entities@.len() > 0,
        m1.entities@ == m0.entities@.update(
            m0.entities@.len() - 1,
            <Entity as EntityAccess<Mass>>::with_slot(
                &m0.entities@.last(),
                Some(m0.components.mass@.len() as usize),
            ),
        ),
        <Components as ComponentAccess<Mass>>::updated_to(
            &m0.components,
            m0.components.mass@.push((m0.entities@.last().id, v)),
            m1.components,
        ),
    ensures
        build_model(m1) =~= apply_add(build_model(m0), CompAdd::AddMass(v)),
        m0.wf() ==> m1.wf(),
        m0.wf() && state_slots_unique(m0) ==> state_slots_unique(m1),
{
}

/// The builder contract for a `Force` attachment, read at its concrete
/// implementation, is exactly one session-model step.
pub proof fn lemma_add_force_step(m0: Manager, m1: Manager, v: Force)
    requires
        m0.entities@.len() > 0,
        m1.entities@ == m0.entities@.update(
            m0.entities@.len() - 1,
            <Entity as EntityAccess<Force>>::with_slot(
                &m0.entities@.last(),
                Some(m0.components.force@.len() as usize),
            ),
        ),
        <Components as ComponentAccess<Force>>::updated_to(
            &m0.components,
            m0.components.force@.push((m0.entities@.last().id, v)),
            m1.components,
        ),
    ensures
        build_model(m1) =~= apply_add(build_model(m0), CompAdd::AddForce(v)),
        m0.wf() ==> m1.wf(),
        m0.wf() && state_slots_unique(m0) ==> state_slots_unique(m1),
{
}

/// Append-only stores: no session step ever removes or reorders what a
/// store already holds; positions, once assigned, are permanent.
pub proof fn lemma_stores_append_only(s: BuildModel, ops: Seq<CompAdd>)
    ensures
        replay_adds(s, ops).state.len() >= s.state.len(),
        replay_adds(s, ops).mass.len() >= s.mass.len(),
        replay_adds(s, ops).force.len() >= s.force.len(),
        forall|j: int| 0 <= j < s.state.len()
            ==> #[trigger] replay_adds(s, ops).state[j] == s.state[j],
        forall|j: int| 0 <= j < s.mass.len()
            ==> #[trigger] replay_adds(s, ops).mass[j] == s.mass[j],
        forall|j: int| 0 <= j < s.force.len()
            ==> #[trigger] replay_adds(s, ops).force[j] == s.force[j],
    decreases ops.len(),
{
    if ops.len() > 0 {
        lemma_stores_append_only(s, ops.drop_last());
    }
}

/// An entity's `State` slot is occupied exactly when a `State` was ever
/// attached (or was already present), and it resolves — owner and value —
/// to the last `State` attached, never to an earlier, orphaned one.
pub proof fn lemma_state_slot_tracks_adds(s: BuildModel, ops: Seq<CompAdd>)
    requires
        s.state.len() + ops.len() <= usize::MAX,
    ensures
        replay_adds(s, ops).state.len() <= s.state.len() + ops.len(),
        replay_adds(s, ops).e.id == s.e.id,
        replay_adds(s, ops).e.state is Some <==> (s.e.state is Some || exists|i: int|
            0 <= i < ops.len() && ops[i] is AddState),
        (exists|i: int| 0 <= i < ops.len() && ops[i] is AddState) ==> ({
            let t = replay_adds(s, ops);
            let li = last_add_state(ops);
            &&& 0 <= li < ops.len()
            &&& ops[li] is AddState
            &&& t.e.state is Some
            &&& (t.e.state->0 as int) < t.state.len()
            &&& t.state[t.e.state->0 as int] == (s.e.id, ops[li]->AddState_0)
        }),
        !(exists|i: int| 0 <= i < ops.len() && ops[i] is AddState)
            ==> replay_adds(s, ops).e.state == s.e.state,
    decreases ops.len(),
{
    if ops.len() > 0 {
        lemma_state_slot_tracks_adds(s, ops.drop_last());
        let pre = ops.drop_last();
        assert(forall|i: int| 0 <= i < pre.len() ==> pre[i] == ops[i]);
        if ops.last() is AddState {
            assert(ops[ops.len() - 1] is AddState);
        } else {
            assert forall|i: int| 0 <= i < ops.len() && ops[i] is AddState
                implies exists|j: int| 0 <= j < pre.len() && pre[j] is AddState by {
                assert(pre[i] is AddState);
            }
        }
    }
}

/// An entity's `Mass` slot is occupied exactly when a `Mass` was ever
/// attached (or was already present), and it resolves — owner and value —
/// to the last `Mass` attached, never to an earlier, orphaned one.
pub proof fn lemma_mass_slot_tracks_adds(s: BuildModel, ops: Seq<CompAdd>)
    requires
        s.mass.len() + ops.len() <= usize::MAX,
    ensures
        replay_adds(s, ops).mass.len() <= s.mass.len() + ops.len(),
        replay_adds(s, ops).e.id == s.e.id,
        replay_adds(s, ops).e.mass is Some <==> (s.e.mass is Some || exists|i: int|
            0 <= i < ops.len() && ops[i] is AddMass),
        (exists|i: int| 0 <= i < ops.len() && ops[i] is AddMass) ==> ({
            let t = replay_adds(s, ops);
            let li = last_add_mass(ops);
            &&& 0 <= li < ops.len()
            &&& ops[li] is AddMass
            &&& t.e.mass is Some
            &&& (t.e.mass->0 as int) < t.mass.len()
            &&& t.mass[t.e.mass->0 as int] == (s.e.id, ops[li]->AddMass_0)
        }),
        !(exists|i: int| 0 <= i < ops.len() && ops[i] is AddMass)
            ==> replay_adds(s, ops).e.mass == s.e.mass,
    decreases ops.len(),
{
    if ops.len() > 0 {
        lemma_mass_slot_tracks_adds(s, ops.drop_last());
        let pre = ops.drop_last();
        assert(forall|i: int| 0 <= i < pre.len() ==> pre[i] == ops[i]);
        if ops.last() is AddMass {
            assert(ops[ops.len() - 1] is AddMass);
        } else {
            assert forall|i: int| 0 <= i < ops.len() && ops[i] is AddMass
                implies exists|j: int| 0 <= j < pre.len() && pre[j] is AddMass by {
                assert(pre[i] is AddMass);
            }
        }
    }
}

/// An entity's `Force` slot is occupied exactly when a `Force` was ever
/// attached (or was already present), and it resolves — owner and value —
/// to the last `Force` attached, never to an earlier, orphaned one.
pub proof fn lemma_force_slot_tracks_adds(s: BuildModel, ops: Seq<CompAdd>)
    requires
        s.force.len() + ops.len() <= usize::MAX,
    ensures
        replay_adds(s, ops).force.len() <= s.force.len() + ops.len(),
        replay_adds(s, ops).e.id == s.e.id,
        replay_adds(s, ops).e.force is Some <==> (s.e.force is Some || exists|i: int|
            0 <= i < ops.len() && ops[i] is AddForce),
        (exists|i: int| 0 <= i < ops.len() && ops[i] is AddForce) ==> ({
            let t = replay_adds(s, ops);
            let li = last_add_force(ops);
            &&& 0 <= li < ops.len()
            &&& ops[li] is AddForce
            &&& t.e.force is Some
            &&& (t.e.force->0 as int) < t.force.len()
            &&& t.force[t.e.force->0 as int] == (s.e.id, ops[li]->AddForce_0)
        }),
        !(exists|i: int| 0 <= i < ops.len() && ops[i] is AddForce)
            ==> replay_adds(s, ops).e.force == s.e.force,
    decreases ops.len(),
{
    if ops.len() > 0 {
        lemma_force_slot_tracks_adds(s, ops.drop_last());
        let pre = ops.drop_last();
        assert(forall|i: int| 0 <= i < pre.len() ==> pre[i] == ops[i]);
        if ops.last() is AddForce {
            assert(ops[ops.len() - 1] is AddForce);
        } else {
            assert forall|i: int| 0 <= i < ops.len() && ops[i] is AddForce
                implies exists|j: int| 0 <= j < pre.len() && pre[j] is AddForce by {
                assert(pre[i] is AddForce);
            }
        }
    }
}

/// In-place mutation: what an exclusive-mutable access writes at a store
/// position is exactly what any later read of that position observes, the
/// store's length is unchanged, and no other position moves.
pub proof fn lemma_mutation_observed<T, C: ComponentAccess<T>>(
    c0: C,
    c1: C,
    i: int,
    owner: usize,
    v: T,
)
    requires
        0 <= i < c0.entries().len(),
        c0.updated_to(c0.entries().update(i, (owner, v)), c1),
    ensures
        c1.entries().len() == c0.entries().len(),
        c1.entries()[i] == (owner, v),
        forall|j: int| 0 <= j < c0.entries().len() && j != i
            ==> c1.entries()[j] == c0.entries()[j],
{
    c0.lemma_updated_to(c0.entries().update(i, (owner, v)), c1);
}

} // verus!
