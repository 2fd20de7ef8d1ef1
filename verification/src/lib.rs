//! A small dynamically typed scripting language: source text is split into
//! tokens, parsed into a tree, and run by a tree-walking evaluator that owns
//! an indexed heap and a stack of lexical frames and reclaims slots with a
//! tracing collector.
//!
//! Numbers are IEEE-754 binary64 values carried as their bit patterns. What
//! only the machine's floating point unit can compute, and all input and
//! output, is asked of a [`host::Host`] supplied by the caller.

pub mod number;
pub mod errors;
pub mod text;
pub mod parsing;
pub mod host;
pub mod interpretting;
pub mod std_lib;
