//! Two-phase deployment of WebAssembly modules to constrained targets.
//!
//! A module is validated once on a capable machine, packed together with the
//! engine configuration it was built under into a self-describing artifact,
//! and later unpacked, linked against host functions and run under a fuel
//! budget on the target.

pub mod codec;
pub mod config;
pub mod engine;
pub mod fuel;
pub mod guest;
pub mod module;
pub mod registry;
pub mod runtime;
pub mod state;
mod text;
pub mod wire;

pub use guest::run;
pub use runtime::link_externals;
pub use state::ModuleState;
