//! A minimal entity-component-system: an entity store, a resource store, a
//! two-phase scheduler, and a greeting plugin driven by a countdown timer.

pub mod timer;
pub mod world;
pub mod hello;
pub mod app;
pub mod laws;
