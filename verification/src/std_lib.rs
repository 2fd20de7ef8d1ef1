//! The operators and the native functions of the language.

pub mod operators;
pub mod functions;
