//! A tokenizer for a small command language of assignments, arithmetic and comparisons.
pub mod grammar;
pub mod laws;
pub mod lemmas;
pub mod lexer;
pub mod text;
pub mod token;

pub use lexer::{lex, lex_comp, lex_proc};
pub use token::{Comparison, Procedure, Token, Tokens};
