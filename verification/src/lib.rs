//! A front end for the Object Constraint Language (OCL): a lexer that turns
//! source bytes into a token stream, and a recursive-descent parser that turns
//! the token stream into an abstract syntax tree.
//!
//! Both stages are pure functions over the input bytes.  Tokens and syntax-tree
//! leaves refer back to the source through half-open byte ranges rather than
//! borrowed substrings, so results own no part of the input.

pub mod lex;
pub mod parse;
pub mod parsing_error;
pub mod token;
