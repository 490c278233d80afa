//! An interpreter for a small statement-oriented scripting language.
//!
//! Source statements are split into tokens, each token becomes a syntax
//! node, and the node list of a statement is routed to the compiler of its
//! statement family, which executes it against the runtime stores.

pub mod builtin;
pub mod collection;
pub mod declaration;
pub mod interp;
pub mod keyword;
pub mod laws;
pub mod lexer;
pub mod node;
pub mod number;
pub mod operator;
pub mod scan;
pub mod store;
pub mod token;
pub mod tokenizer;
pub mod value;
pub mod text;
