//! A minimal entity-component store with a type-join query engine.
//!
//! Entities are lightweight identities created append-only by a manager;
//! each registered component type has one dense, append-only store of
//! `(owner id, value)` pairs, and each entity records, per type, an optional
//! slot into that type's store.  The query engine visits, in ascending
//! creation order, exactly the entities that hold every requested component
//! type.
//!
//! The registered type set is closed and declared once: the per-type storage
//! fields and capability bindings that a macro would generate are written out
//! by hand in [`schema`], against the capability traits of [`traits`].

pub mod schema;
pub mod traits;
pub mod manager;
pub mod query;
pub mod systems;
pub mod laws;

pub use traits::EntityAccess;
pub use traits::ComponentAccess;
pub use traits::EntityBuilder;
pub use schema::State;
pub use schema::Mass;
pub use schema::Force;
pub use schema::Entity;
pub use schema::Components;
pub use manager::Manager;
pub use query::Query;
pub use query::holds_query;
pub use query::store_values;
pub use systems::advance_positions;
pub use systems::apply_forces;
pub use systems::update_state;
pub use systems::SCALE;
pub use systems::MAX_VAL;
pub use systems::MAX_DT;
pub use systems::MAX_FORCES;
pub use laws::BuildModel;
pub use laws::CompAdd;
