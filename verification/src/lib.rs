//! Codex Halo core: the lifecycle state machine, state-file validation,
//! session-record recognition, settings recovery and the path layout,
//! each with a contract checked by Verus.

pub mod state;
pub mod text;
pub mod activity;
pub mod runtime;
pub mod platform;
pub mod settings;
pub mod sessions;
pub mod menu;
