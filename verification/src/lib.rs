//! Semantic analysis for the Nervs language: a hierarchical namespace
//! registry (realms, beings, rituals), a lexical scope stack, and a
//! type-inference and statement-validation engine over the syntax tree.

pub mod ast;
pub mod lexer;
pub mod names;
pub mod semantic;
