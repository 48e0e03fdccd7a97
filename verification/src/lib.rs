//! A verified implementation of Vector Language: a lexer and parser for
//! `.vx`/`.vdx` programs, a compiler to kernel operations, and a
//! deterministic kernel that applies them to the network state and keeps
//! every successful change as a hash-chained, immutable event.

pub mod text;
pub mod ast;
pub mod strmap;
pub mod error;
pub mod allocation;
pub mod token;
pub mod value;
pub mod lexer;
pub mod parser;
pub mod kernel;
pub mod compiler;
pub mod event;
pub mod state;
pub mod history;
pub mod runtime;
