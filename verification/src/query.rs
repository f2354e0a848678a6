//! The query/join engine: an AND-filter iteration over entities by
//! type-presence.
//!
//! A [`Query`] names the required component types; [`Manager::matching_ids`]
//! yields, in ascending creation order, the id of every entity that holds
//! all of them — no partial matches, no default values.  A caller visits a
//! matching entity by fetching the recorded slots through the capability
//! traits, read-only or exclusive-mutable; Rust's borrow rules keep an
//! exclusive-mutable visit from aliasing any other access to the same
//! store.  [`store_values`] is the secondary primitive: a read-only scan of
//! one store's values alone, independent of entity linkage.

use vstd::prelude::*;
use crate::schema::Entity;
use crate::traits::ComponentAccess;
use crate::manager::Manager;

verus! {

/// The set of component types a query requires, one flag per registered
/// type.
#[derive(Clone, Copy, Debug, PartialEq, Eq, Structural)]
pub struct Query {
    pub state: bool,
    pub mass: bool,
    pub force: bool,
}

/// Whether entity `e` holds every component type that `q` requires.
pub open spec fn holds_query(e: Entity, q: Query) -> bool {
    &&& (q.state ==> e.state is Some)
    &&& (q.mass ==> e.mass is Some)
    &&& (q.force ==> e.force is Some)
}

impl Manager {
    /// The ids of exactly the entities holding every type that `q`
    /// requires, in ascending creation-id order, and no others.
    pub fn matching_ids(&self, q: Query) -> (ids: Vec<usize>)
        ensures
            forall|j: int| 0 <= j < ids@.len() ==> (ids@[j] as int) < self.entities@.len()
                && holds_query(self.entities@[ids@[j] as int], q),
            forall|i: int| 0 <= i < self.entities@.len() && holds_query(self.entities@[i], q)
                ==> ids@.contains(i as usize),
            forall|j1: int, j2: int| 0 <= j1 < j2 < ids@.len() ==> ids@[j1] < ids@[j2],
    {
        let mut ids: Vec<usize> = Vec::new();
        let n = self.entities.len();
        let mut k: usize = 0;
        while k < n
            invariant
                n == self.entities@.len(),
                k <= n,
                forall|j: int| 0 <= j < ids@.len() ==> (ids@[j] as int) < k
                    && holds_query(self.entities@[ids@[j] as int], q),
                forall|i: int| 0 <= i < k && holds_query(self.entities@[i], q)
                    ==> ids@.contains(i as usize),
                forall|j1: int, j2: int| 0 <= j1 < j2 < ids@.len() ==> ids@[j1] < ids@[j2],
            decreases n - k,
        {
            let e = &self.entities[k];
            let ok_state = !q.state || e.state.is_some();
            let ok_mass = !q.mass || e.mass.is_some();
            let ok_force = !q.force || e.force.is_some();
            if ok_state && ok_mass && ok_force {
                let ghost pre = ids@;
                ids.push(k);
                proof {
                    assert forall|i: int|
                        0 <= i < k + 1 && holds_query(self.entities@[i], q)
                            implies ids@.contains(i as usize) by {
                        if i < k {
                            let idx = choose|idx: int|
                                0 <= idx < pre.len() && pre[idx] == i as usize;
                            assert(ids@[idx] == i as usize);
                        } else {
                            assert(ids@[pre.len() as int] == k);
                        }
                    }
                }
            }
            k += 1;
        }
        ids
    }
}

/// All values of one component type, in insertion order, regardless of
/// which entity owns each: the single-store scan primitive.
pub fn store_values<T: Copy, C: ComponentAccess<T>>(c: &C) -> (vs: Vec<T>)
    ensures
        vs@.len() == c.entries().len(),
        forall|j: int| 0 <= j < vs@.len() ==> vs@[j] == c.entries()[j].1,
{
    let v = c.raw_get();
    let mut vs: Vec<T> = Vec::new();
    let mut k: usize = 0;
    while k < v.len()
        invariant
            v@ == c.entries(),
            k <= v@.len(),
            vs@.len() == k,
            forall|j: int| 0 <= j < k ==> vs@[j] == v@[j].1,
        decreases v@.len() - k,
    {
        vs.push(v[k].1);
        k += 1;
    }
    vs
}

} // verus!
