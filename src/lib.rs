//! Finite-state-machine compiler: a transition-table language, the model
//! built from it, the source emitted for it, and the runtime types that the
//! emitted machines rely on.

pub mod atoms;
pub mod codegen;
pub mod compiler;
pub mod dispatch;
pub mod lexer;
pub mod model;
pub mod names;
pub mod parser;
pub mod runtime;
pub mod syntax;
