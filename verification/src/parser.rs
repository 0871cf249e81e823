//! Parsing tokens into a program.
pub mod spec;
pub mod error;
pub mod descent;

pub use self::error::{ParseError, ParseErrorExpected, ParseErrors};
pub use self::descent::{Parser, Precedence};
