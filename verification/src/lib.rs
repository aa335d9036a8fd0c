//! Command-line schemas: a tree of commands, subcommands and flags, the
//! token-by-token parsing procedure that such a tree stands for, and the help
//! text of the same tree.

pub mod builder;
pub mod cli;
pub mod declaration;
pub mod engine;
pub mod error;
pub mod help;
pub mod laws;
pub mod lexer;
pub mod parser;
pub mod schema;
pub mod subcommand;
pub mod text;
pub mod token;
pub mod value;
