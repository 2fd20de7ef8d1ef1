//! The execution engine: values, the heap and the scope stack, the
//! collector, and the evaluator.

pub mod interpreter_utils;
pub mod variables;
pub mod garbage_collector;
pub mod semantics;
pub mod interpreter;
pub mod invariants;
pub mod dump;
