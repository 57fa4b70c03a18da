//! Per-program GPU preferences for Windows: which programs are managed, which GPU each
//! one is asked to use, and how the preferences are written to the registry in one
//! transaction.

pub mod strings;
pub mod exe_set;
pub mod programs;
pub mod exclusions;
pub mod registry;
pub mod transaction;
pub mod optimus;
pub mod cli;
