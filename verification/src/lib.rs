//! Statement-execution core of a tree-walking interpreter for a small
//! dynamically-typed scripting language.
//!
//! Statements are executed against a chain of lexical scopes (the
//! environment); `return` escapes nested execution as a control signal
//! carried on the same propagation channel as errors.  The executable
//! interpreter is verified against a specification-level big-step
//! semantics, `sem::spec_exec_stmt` and friends.

pub mod ast;
pub mod value;
pub mod outcome;
pub mod env;
pub mod sem;
pub mod interp;
pub mod laws;
