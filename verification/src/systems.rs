//! Example per-tick update: the host-style system functions, written
//! against the query and capability API.
//!
//! Payload values are plain integers read at the fixed scale [`SCALE`]
//! (a stored value `v` stands for the quantity `v / SCALE`), so a tick is
//! exact integer arithmetic: positions advance by `vx * dt / SCALE`, and
//! velocities of mass-bearing entities absorb `dt * f / m` for every value
//! in the force store, with truncating division.

use vstd::prelude::*;
use crate::schema::State;
use crate::schema::Force;
use crate::schema::Mass;
use crate::manager::Manager;
use crate::query::store_values;
use crate::traits::ComponentAccess;
use crate::schema::Components;

verus! {

/// Fixed-point scale: a stored payload value `v` stands for `v / SCALE`.
pub const SCALE: i64 = 1000;

/// Bound on payload values accepted by the update systems.
pub const MAX_VAL: i64 = 1000000000;

/// Bound on the time step accepted by the update systems.
pub const MAX_DT: i64 = 1000000;

/// Bound on the force-store population accepted by `apply_forces`.
pub const MAX_FORCES: usize = 1000;

/// Truncating (round-toward-zero) division, for a positive divisor: the
/// semantics of the executable `/` on signed integers.
pub open spec fn tdiv(a: int, b: int) -> int {
    if a >= 0 {
        a / b
    } else {
        -((-a) / b)
    }
}

pub open spec fn small(v: int) -> bool {
    -(MAX_VAL as int) <= v <= MAX_VAL as int
}

pub open spec fn state_small(s: State) -> bool {
    small(s.x as int) && small(s.y as int) && small(s.vx as int) && small(s.vy as int)
}

pub open spec fn vel_small(s: State) -> bool {
    small(s.vx as int) && small(s.vy as int)
}

pub open spec fn force_small(f: Force) -> bool {
    small(f.fx as int) && small(f.fy as int)
}

/// `s` after one position step: `x += vx * dt / SCALE`, `y` likewise;
/// velocity unchanged.
pub open spec fn advanced(s: State, dt: int) -> State {
    State {
        x: (s.x + tdiv(s.vx * dt, SCALE as int)) as i64,
        y: (s.y + tdiv(s.vy * dt, SCALE as int)) as i64,
        vx: s.vx,
        vy: s.vy,
    }
}

/// Sum of the velocity contributions `dt * fx / m` of every force value,
/// truncating division per contribution, in store order.
pub open spec fn force_sum_x(fs: Seq<Force>, dt: int, mass: int) -> int
    decreases fs.len(),
{
    if fs.len() == 0 {
        0
    } else {
        force_sum_x(fs.drop_last(), dt, mass) + tdiv(dt * fs.last().fx, mass)
    }
}

/// Sum of the velocity contributions `dt * fy / m` of every force value,
/// truncating division per contribution, in store order.
pub open spec fn force_sum_y(fs: Seq<Force>, dt: int, mass: int) -> int
    decreases fs.len(),
{
    if fs.len() == 0 {
        0
    } else {
        force_sum_y(fs.drop_last(), dt, mass) + tdiv(dt * fs.last().fy, mass)
    }
}

/// The values of the force store, in insertion order, owners dropped.
pub open spec fn force_vals(c: Components) -> Seq<Force> {
    c.force@.map_values(|p: (usize, Force)| p.1)
}

/// `s` after absorbing every force value in `fs` against mass `mass`:
/// velocity shifts by the per-force contributions, position unchanged.
pub open spec fn kicked(s: State, fs: Seq<Force>, mass: int, dt: int) -> State {
    State {
        x: s.x,
        y: s.y,
        vx: (s.vx + force_sum_x(fs, dt, mass)) as i64,
        vy: (s.vy + force_sum_y(fs, dt, mass)) as i64,
    }
}

/// No entity's `State` slot aliases another entity's: every occupied
/// position of the state store has at most one owner entity.
pub open spec fn state_slots_unique(m: Manager) -> bool {
    forall|k1: int, k2: int|
        0 <= k1 < k2 < m.entities@.len() && m.entities@[k1].state is Some
            && m.entities@[k2].state is Some
            ==> m.entities@[k1].state->0 != m.entities@[k2].state->0
}

/// Position `j` of the state store is the recorded slot of some entity.
pub open spec fn state_pos_owned(m: Manager, j: int) -> bool {
    exists|k: int|
        0 <= k < m.entities@.len() && m.entities@[k].state is Some
            && m.entities@[k].state->0 == j
}

/// Position `j` of the state store is the recorded slot of an entity that
/// also holds a `Mass`.
pub open spec fn state_pos_massed(m: Manager, j: int) -> bool {
    exists|k: int|
        0 <= k < m.entities@.len() && m.entities@[k].state is Some
            && m.entities@[k].state->0 == j && m.entities@[k].mass is Some
}

/// For every entity holding a `State`, advance its position by its
/// velocity over `dt`; entities without `State`, orphaned store entries,
/// and every other store are untouched.
pub fn advance_positions(m: &mut Manager, dt: i64)
    requires
        old(m).wf(),
        state_slots_unique(*old(m)),
        0 <= dt <= MAX_DT,
        forall|j: int| 0 <= j < old(m).components.state@.len()
            ==> state_small(#[trigger] old(m).components.state@[j].1),
    ensures
        final(m).entities@ == old(m).entities@,
        final(m).components.mass@ == old(m).components.mass@,
        final(m).components.force@ == old(m).components.force@,
        final(m).components.state@.len() == old(m).components.state@.len(),
        forall|j: int| 0 <= j < old(m).components.state@.len()
            ==> #[trigger] final(m).components.state@[j].0 == old(m).components.state@[j].0,
        forall|k: int| 0 <= k < old(m).entities@.len() && old(m).entities@[k].state is Some
            ==> #[trigger] final(m).components.state@[old(m).entities@[k].state->0 as int].1
                == advanced(old(m).components.state@[old(m).entities@[k].state->0 as int].1, dt as int),
        forall|j: int| 0 <= j < old(m).components.state@.len() && !state_pos_owned(*old(m), j)
            ==> #[trigger] final(m).components.state@[j] == old(m).components.state@[j],
        final(m).wf(),
        state_slots_unique(*final(m)),
{
    let n = m.entities.len();
    let mut k: usize = 0;
    while k < n
        invariant
            m.wf(),
            state_slots_unique(*m),
            n == m.entities@.len(),
            k <= n,
            0 <= dt <= MAX_DT,
            forall|j: int| 0 <= j < old(m).components.state@.len()
                ==> state_small(#[trigger] old(m).components.state@[j].1),
            m.entities@ == old(m).entities@,
            m.components.mass@ == old(m).components.mass@,
            m.components.force@ == old(m).components.force@,
            m.components.state@.len() == old(m).components.state@.len(),
            forall|j: int| 0 <= j < old(m).components.state@.len()
                ==> #[trigger] m.components.state@[j].0 == old(m).components.state@[j].0,
            forall|k1: int| 0 <= k1 < k && m.entities@[k1].state is Some
                ==> #[trigger] m.components.state@[m.entities@[k1].state->0 as int].1
                    == advanced(old(m).components.state@[m.entities@[k1].state->0 as int].1, dt as int),
            forall|k1: int| k <= k1 < n && m.entities@[k1].state is Some
                ==> #[trigger] m.components.state@[m.entities@[k1].state->0 as int].1
                    == old(m).components.state@[m.entities@[k1].state->0 as int].1,
            forall|j: int| 0 <= j < old(m).components.state@.len() && !state_pos_owned(*old(m), j)
                ==> #[trigger] m.components.state@[j] == old(m).components.state@[j],
        decreases n - k,
    {
        let sl = m.entities[k].state;
        if let Some(i) = sl {
            proof {
                assert(m.entities@[k as int].state is Some);
                assert((i as int) < m.components.state@.len());
                assert(m.components.state@[i as int].1
                    == old(m).components.state@[i as int].1);
                assert(state_small(old(m).components.state@[i as int].1));
            }
            let s0 = *<Components as ComponentAccess<State>>::get(&m.components, i);
            proof {
                assert(-1000000000000000 <= s0.vx * dt <= 1000000000000000) by (nonlinear_arith)
                    requires
                        -(MAX_VAL as int) <= s0.vx <= MAX_VAL as int,
                        0 <= dt <= MAX_DT as int,
                ;
                assert(-1000000000000000 <= s0.vy * dt <= 1000000000000000) by (nonlinear_arith)
                    requires
                        -(MAX_VAL as int) <= s0.vy <= MAX_VAL as int,
                        0 <= dt <= MAX_DT as int,
                ;
                assert(forall|p: int| 0 <= p <= 1000000000000000
                    ==> 0 <= #[trigger] (p / (SCALE as int)) <= p) by (nonlinear_arith);
            }
            let nx = s0.x + s0.vx * dt / SCALE;
            let ny = s0.y + s0.vy * dt / SCALE;
            let sref = <Components as ComponentAccess<State>>::get_mut(&mut m.components, i);
            sref.x = nx;
            sref.y = ny;
        }
        k += 1;
    }
}

/// A truncated quotient is no larger in magnitude than the dividend.
proof fn lemma_tdiv_bound(a: int, b: int, cap: int)
    requires
        b >= 1,
        0 <= cap,
        -cap <= a <= cap,
    ensures
        -cap <= tdiv(a, b) <= cap,
{
    if a >= 0 {
        assert(0 <= a / b <= a) by (nonlinear_arith)
            requires
                a >= 0,
                b >= 1,
        ;
    } else {
        assert(0 <= (-a) / b <= -a) by (nonlinear_arith)
            requires
                -a >= 0,
                b >= 1,
        ;
    }
}

/// For every entity holding both `State` and `Mass`, shift its velocity
/// by `dt * f / m` for every value currently in the force store; entities
/// lacking either type, orphaned store entries, and every other store are
/// untouched.
pub fn apply_forces(m: &mut Manager, dt: i64)
    requires
        old(m).wf(),
        state_slots_unique(*old(m)),
        0 <= dt <= MAX_DT,
        forall|j: int| 0 <= j < old(m).components.state@.len()
            ==> vel_small(#[trigger] old(m).components.state@[j].1),
        forall|j: int| 0 <= j < old(m).components.force@.len()
            ==> force_small(#[trigger] old(m).components.force@[j].1),
        forall|j: int| 0 <= j < old(m).components.mass@.len()
            ==> 1 <= (#[trigger] old(m).components.mass@[j].1).m,
        old(m).components.force@.len() <= MAX_FORCES,
    ensures
        final(m).entities@ == old(m).entities@,
        final(m).components.mass@ == old(m).components.mass@,
        final(m).components.force@ == old(m).components.force@,
        final(m).components.state@.len() == old(m).components.state@.len(),
        forall|j: int| 0 <= j < old(m).components.state@.len()
            ==> #[trigger] final(m).components.state@[j].0 == old(m).components.state@[j].0,
        forall|k: int|
            0 <= k < old(m).entities@.len() && old(m).entities@[k].state is Some
                && old(m).entities@[k].mass is Some
                ==> #[trigger] final(m).components.state@[old(m).entities@[k].state->0 as int].1
                    == kicked(
                    old(m).components.state@[old(m).entities@[k].state->0 as int].1,
                    force_vals(old(m).components),
                    old(m).components.mass@[old(m).entities@[k].mass->0 as int].1.m as int,
                    dt as int,
                ),
        forall|j: int| 0 <= j < old(m).components.state@.len() && !state_pos_massed(*old(m), j)
            ==> #[trigger] final(m).components.state@[j] == old(m).components.state@[j],
        final(m).wf(),
        state_slots_unique(*final(m)),
{
    let fs = store_values::<Force, Components>(&m.components);
    proof {
        assert(fs@ =~= force_vals(m.components));
    }
    let nf = fs.len();
    let n = m.entities.len();
    let mut k: usize = 0;
    while k < n
        invariant
            m.wf(),
            state_slots_unique(*m),
            n == m.entities@.len(),
            k <= n,
            0 <= dt <= MAX_DT,
            nf == fs@.len(),
            fs@ == force_vals(old(m).components),
            fs@.len() <= MAX_FORCES,
            forall|t: int| 0 <= t < fs@.len() ==> force_small(#[trigger] fs@[t]),
            forall|j: int| 0 <= j < old(m).components.state@.len()
                ==> vel_small(#[trigger] old(m).components.state@[j].1),
            forall|j: int| 0 <= j < old(m).components.mass@.len()
                ==> 1 <= (#[trigger] old(m).components.mass@[j].1).m,
            m.entities@ == old(m).entities@,
            m.components.mass@ == old(m).components.mass@,
            m.components.force@ == old(m).components.force@,
            m.components.state@.len() == old(m).components.state@.len(),
            forall|j: int| 0 <= j < old(m).components.state@.len()
                ==> #[trigger] m.components.state@[j].0 == old(m).components.state@[j].0,
            forall|k1: int|
                0 <= k1 < k && m.entities@[k1].state is Some && m.entities@[k1].mass is Some
                    ==> #[trigger] m.components.state@[m.entities@[k1].state->0 as int].1
                        == kicked(
                        old(m).components.state@[m.entities@[k1].state->0 as int].1,
                        force_vals(old(m).components),
                        old(m).components.mass@[m.entities@[k1].mass->0 as int].1.m as int,
                        dt as int,
                    ),
            forall|j: int|
                0 <= j < old(m).components.state@.len() && !(exists|k1: int|
                    0 <= k1 < k && m.entities@[k1].state is Some
                        && m.entities@[k1].state->0 == j && m.entities@[k1].mass is Some)
                    ==> #[trigger] m.components.state@[j] == old(m).components.state@[j],
        decreases n - k,
    {
        let sl = m.entities[k].state;
        let ml = m.entities[k].mass;
        if let (Some(i), Some(im)) = (sl, ml) {
            proof {
                assert(m.entities@[k as int].state is Some);
                assert((i as int) < m.components.state@.len());
                assert((im as int) < m.components.mass@.len());
                if exists|k1: int|
                    0 <= k1 < k && m.entities@[k1].state is Some
                        && m.entities@[k1].state->0 == i as int && m.entities@[k1].mass is Some {
                    let k1 = choose|k1: int|
                        0 <= k1 < k && m.entities@[k1].state is Some
                            && m.entities@[k1].state->0 == i as int && m.entities@[k1].mass is Some;
                    assert(m.entities@[k1].state->0 == m.entities@[k as int].state->0);
                    assert(false);
                }
                assert(m.components.state@[i as int] == old(m).components.state@[i as int]);
                assert(vel_small(old(m).components.state@[i as int].1));
            }
            let mass = <Components as ComponentAccess<Mass>>::get(&m.components, im).m;
            let s0 = *<Components as ComponentAccess<State>>::get(&m.components, i);
            let mut dvx: i64 = 0;
            let mut dvy: i64 = 0;
            let mut j: usize = 0;
            while j < nf
                invariant
                    0 <= dt <= MAX_DT,
                    1 <= mass,
                    nf == fs@.len(),
                    fs@.len() <= MAX_FORCES,
                    forall|t: int| 0 <= t < fs@.len() ==> force_small(#[trigger] fs@[t]),
                    j <= nf,
                    dvx == force_sum_x(fs@.take(j as int), dt as int, mass as int),
                    dvy == force_sum_y(fs@.take(j as int), dt as int, mass as int),
                    -(j as int) * 1000000000000000 <= dvx <= (j as int) * 1000000000000000,
                    -(j as int) * 1000000000000000 <= dvy <= (j as int) * 1000000000000000,
                decreases nf - j,
            {
                let f = fs[j];
                proof {
                    assert(-1000000000000000 <= dt * f.fx <= 1000000000000000) by (nonlinear_arith)
                        requires
                            -(MAX_VAL as int) <= f.fx <= MAX_VAL as int,
                            0 <= dt <= MAX_DT as int,
                    ;
                    assert(-1000000000000000 <= dt * f.fy <= 1000000000000000) by (nonlinear_arith)
                        requires
                            -(MAX_VAL as int) <= f.fy <= MAX_VAL as int,
                            0 <= dt <= MAX_DT as int,
                    ;
                    lemma_tdiv_bound(dt * f.fx, mass as int, 1000000000000000);
                    lemma_tdiv_bound(dt * f.fy, mass as int, 1000000000000000);
                    assert(fs@.take(j as int + 1).drop_last() =~= fs@.take(j as int));
                    assert(fs@.take(j as int + 1).last() == fs@[j as int]);
                }
                dvx = dvx + dt * f.fx / mass;
                dvy = dvy + dt * f.fy / mass;
                j += 1;
            }
            proof {
                assert(fs@.take(nf as int) =~= fs@);
            }
            let sref = <Components as ComponentAccess<State>>::get_mut(&mut m.components, i);
            sref.vx = s0.vx + dvx;
            sref.vy = s0.vy + dvy;
        }
        k += 1;
    }
}

/// One full tick: advance every `State`-bearing entity's position by its
/// velocity, then shift the velocity of every entity that also holds a
/// `Mass` by `dt * f / m` for every value in the force store.
pub fn update_state(m: &mut Manager, dt: i64)
    requires
        old(m).wf(),
        state_slots_unique(*old(m)),
        0 <= dt <= MAX_DT,
        forall|j: int| 0 <= j < old(m).components.state@.len()
            ==> state_small(#[trigger] old(m).components.state@[j].1),
        forall|j: int| 0 <= j < old(m).components.force@.len()
            ==> force_small(#[trigger] old(m).components.force@[j].1),
        forall|j: int| 0 <= j < old(m).components.mass@.len()
            ==> 1 <= (#[trigger] old(m).components.mass@[j].1).m,
        old(m).components.force@.len() <= MAX_FORCES,
    ensures
        final(m).entities@ == old(m).entities@,
        final(m).components.mass@ == old(m).components.mass@,
        final(m).components.force@ == old(m).components.force@,
        final(m).components.state@.len() == old(m).components.state@.len(),
        forall|j: int| 0 <= j < old(m).components.state@.len()
            ==> #[trigger] final(m).components.state@[j].0 == old(m).components.state@[j].0,
        forall|k: int|
            0 <= k < old(m).entities@.len() && old(m).entities@[k].state is Some
                && old(m).entities@[k].mass is Some
                ==> #[trigger] final(m).components.state@[old(m).entities@[k].state->0 as int].1
                    == kicked(
                    advanced(
                        old(m).components.state@[old(m).entities@[k].state->0 as int].1,
                        dt as int,
                    ),
                    force_vals(old(m).components),
                    old(m).components.mass@[old(m).entities@[k].mass->0 as int].1.m as int,
                    dt as int,
                ),
        forall|k: int|
            0 <= k < old(m).entities@.len() && old(m).entities@[k].state is Some
                && old(m).entities@[k].mass is None
                ==> #[trigger] final(m).components.state@[old(m).entities@[k].state->0 as int].1
                    == advanced(
                    old(m).components.state@[old(m).entities@[k].state->0 as int].1,
                    dt as int,
                ),
        forall|j: int| 0 <= j < old(m).components.state@.len() && !state_pos_owned(*old(m), j)
            ==> #[trigger] final(m).components.state@[j] == old(m).components.state@[j],
        final(m).wf(),
        state_slots_unique(*final(m)),
{
    advance_positions(m, dt);
    let ghost m1 = *m;
    proof {
        assert forall|j: int| 0 <= j < m1.components.state@.len()
            implies vel_small(#[trigger] m1.components.state@[j].1) by {
            if state_pos_owned(*old(m), j) {
                let k = choose|k: int|
                    0 <= k < old(m).entities@.len() && old(m).entities@[k].state is Some
                        && old(m).entities@[k].state->0 == j;
                assert(m1.components.state@[old(m).entities@[k].state->0 as int].1
                    == advanced(
                    old(m).components.state@[old(m).entities@[k].state->0 as int].1,
                    dt as int,
                ));
                assert(m1.components.state@[j].1
                    == advanced(old(m).components.state@[j].1, dt as int));
            } else {
                assert(m1.components.state@[j] == old(m).components.state@[j]);
            }
        }
    }
    apply_forces(m, dt);
    proof {
        assert(force_vals(m1.components) == force_vals(old(m).components));
        assert forall|k: int|
            0 <= k < old(m).entities@.len() && old(m).entities@[k].state is Some
                && old(m).entities@[k].mass is None
                implies #[trigger] m.components.state@[old(m).entities@[k].state->0 as int].1
                == advanced(
                old(m).components.state@[old(m).entities@[k].state->0 as int].1,
                dt as int,
            ) by {
            let i = old(m).entities@[k].state->0 as int;
            if state_pos_massed(m1, i) {
                let k1 = choose|k1: int|
                    0 <= k1 < m1.entities@.len() && m1.entities@[k1].state is Some
                        && m1.entities@[k1].state->0 == i && m1.entities@[k1].mass is Some;
                assert(m1.entities@[k1].state->0 == m1.entities@[k as int].state->0);
                assert(false);
            }
            assert(m.components.state@[i] == m1.components.state@[i]);
        }
        assert forall|j: int|
            0 <= j < old(m).components.state@.len() && !state_pos_owned(*old(m), j)
                implies #[trigger] m.components.state@[j] == old(m).components.state@[j] by {
            if state_pos_massed(m1, j) {
                let k1 = choose|k1: int|
                    0 <= k1 < m1.entities@.len() && m1.entities@[k1].state is Some
                        && m1.entities@[k1].state->0 == j && m1.entities@[k1].mass is Some;
                assert(state_pos_owned(*old(m), j));
                assert(false);
            }
        }
    }
}

} // verus!
