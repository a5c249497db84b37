//! An interactive numeric-expression language engine: lines of text holding
//! an assignment, a function definition or a bare expression are lexed,
//! parsed by a shift-reduce automaton and evaluated against a persistent
//! environment of named values and functions, with constant folding at
//! definition time, user functions, self-recursion and multi-line input.
mod interp;
mod lexer;
mod num;
mod parser;

pub use interp::{InputError, InputState, Interpreter};
pub use lexer::{Expected, InvalidToken};
pub use num::Real;
