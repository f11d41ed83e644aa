//! A minimal verified entity-data scheduler: a store of per-entity typed
//! attributes, a query engine over attribute shapes, stages of computations
//! checked for access conflicts, and a tick driver that runs the stages in
//! order over the persistent store.

pub mod store;
pub mod query;
pub mod systems;
pub mod schedule;
pub mod driver;
