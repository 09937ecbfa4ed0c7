//! Theorems about the library, by subject.

pub mod evaluation;
pub mod program;
pub mod rendering;
pub mod tokens;
