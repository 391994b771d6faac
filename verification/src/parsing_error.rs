//! The diagnostic type shared by the lexer and the parser: a human-readable
//! message plus a half-open byte-offset range into the original source.

use vstd::prelude::*;

verus! {

/// An error from either front-end stage.  `from` and `to` delimit the
/// half-open byte range `[from, to)` of the offending source text.
#[derive(Clone, Debug)]
pub struct ParsingError {
    pub msg: String,
    pub from: usize,
    pub to: usize,
}

/// The mathematical value of a [`ParsingError`]: the message as a character
/// sequence and the offsets as unbounded integers.
pub struct ErrorModel {
    pub msg: Seq<char>,
    pub from: int,
    pub to: int,
}

impl View for ParsingError {
    type V = ErrorModel;

    open spec fn view(&self) -> ErrorModel {
        ErrorModel { msg: self.msg@, from: self.from as int, to: self.to as int }
    }
}

impl ParsingError {
    /// Builds the error that reports `msg` against the byte range `[from, to)`.
    pub fn new(msg: &str, from: usize, to: usize) -> (r: ParsingError)
        ensures
            r@ == (ErrorModel { msg: msg@, from: from as int, to: to as int }),
    {
        ParsingError { msg: msg.to_owned(), from, to }
    }
}

} // verus!
