//! A small interpreter for an indentation-structured, dynamically typed
//! language: lexer, parser, bytecode compiler, object model and stack machine.
//!
//! All run-time values live in a [`object::Runtime`]: an arena of objects and of
//! environment frames, addressed by index. Every operation takes the runtime it
//! works on, and states in its contract how it changes it.

pub mod token;
pub mod lexer;
pub mod syntax;
pub mod parser;
pub mod opcode;
pub mod compile;
pub mod object;
pub mod env;
pub mod error;
pub mod eval;
pub mod builtinmodule;
pub mod util;
