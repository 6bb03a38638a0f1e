//! Controller core for a fleet of ephemeral, VM-backed CI job runners.
//!
//! The library owns the machine lifecycle state machine and the
//! resource-budgeted fleet scheduler: which requested runners may advance
//! toward "running" given currently available memory, and which machines are
//! torn down when demand drops.

pub mod config;
pub mod machine;
pub mod manager;
pub mod triplet;
