//! Tools: results, the registry's permission gate, path confinement.
pub mod registry;
pub mod filesystem;
pub mod editor;
pub mod git;
pub mod shell;
pub mod search;
