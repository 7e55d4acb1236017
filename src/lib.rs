//! Environment-variable merging: named environments of variable rules,
//! folded in order over a snapshot of the ambient environment.

pub mod cli;
pub mod config;
pub mod laws;
pub mod merge;
pub mod select;
pub mod strings;
pub mod var_map;
