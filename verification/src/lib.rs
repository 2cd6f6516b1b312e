//! A front end for a minimal subset of C: a lexer, a recursive-descent
//! parser, a lowering pass to an assembly-level tree, and a textual emitter
//! producing GNU-assembler syntax. Each stage carries a contract that pins
//! its output down exactly, stated over sequence models of the data.

pub mod assembly;
pub mod decimal;
pub mod emission;
pub mod laws;
pub mod lexer;
pub mod parser;
