//! A 2D particle sandbox core: handle-keyed bookkeeping over a rigid-body
//! solver, an entity registry, travel-limited assemblies, the cadence of the
//! custom gravity pass, and one-shot command signals.

pub mod handle;
pub mod solver;
pub mod world;
pub mod gravity;
pub mod quant;
pub mod collector;
pub mod joint;
pub mod query;
pub mod signals;
pub mod sim;
