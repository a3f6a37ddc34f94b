//! Lexical scanner for a small S-expression language: turns source text
//! into a stream of tokens, one pull at a time.

pub mod chars;
pub mod cursor;
pub mod grammar;
pub mod laws;
pub mod token;
pub mod tokenizer;

pub use token::{Number, Token, TokenError};
pub use tokenizer::{tokenize, Tokenizer};
