//! The tree-walking evaluator of Monkey programs.
pub mod error;
pub mod semantics;
pub mod result;
pub mod builtins;
pub mod evaluator;
pub mod laws;

pub use self::error::Error;
