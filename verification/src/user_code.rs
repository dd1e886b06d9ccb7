//! The per-effect pieces a plugin author fills in: which parameters
//! the plugin exposes, and the effect's per-sample processing body.

pub mod parameters;
pub mod process_effects;
