//! The token model: the closed set of lexical categories the scanner can
//! produce, together with the byte spans that tie tokens back to the source.

use vstd::prelude::*;

verus! {

/// A half-open byte range `[from, to)` into the source text.
#[derive(Clone, Copy, Debug, PartialEq, Eq, Structural)]
pub struct Span {
    pub from: usize,
    pub to: usize,
}

/// The exact value of a real numeral `digits.digits`, kept as its two digit
/// runs: the value denoted is `whole + frac / 10^frac_len`.
#[derive(Clone, Copy, Debug, PartialEq, Eq, Structural)]
pub struct RealLiteral {
    /// Value of the digit run before the point.
    pub whole: u64,
    /// Value of the digit run after the point.
    pub frac: u64,
    /// Number of digits after the point (leading zeros of `frac` included).
    pub frac_len: usize,
}

/// Literal payloads, as in the OCL specification chapter 7.4.
#[derive(Clone, Copy, Debug, PartialEq, Eq, Structural)]
pub enum LiteralVariation {
    /// The span strictly between the delimiting quotes.
    String(Span),
    Integer(i64),
    Real(RealLiteral),
}

/// Operator and punctuation kinds, as in the OCL specification chapters 7.4.9
/// and 7.4.10.  The scanner emits only the symbol operators; the final five
/// kinds name the keyword-spelled logical operators and appear only inside
/// syntax-tree nodes built by the parser.
#[derive(Clone, Copy, Debug, PartialEq, Eq, Structural)]
pub enum OperatorVariation {
    Point,
    DoublePoint,
    Arrow,
    Star,
    Plus,
    Minus,
    Slash,
    LessThan,
    GreaterThan,
    LessThanEqual,
    GreaterThanEqual,
    Equals,
    Unequals,
    Colon,
    DoubleColon,
    Comma,
    OpeningRoundBracket,
    ClosingRoundBracket,
    OpeningCurlyBracket,
    ClosingCurlyBracket,
    OpeningSquareBracket,
    ClosingSquareBracket,
    Pipe,
    AtPre,
    And,
    Or,
    Xor,
    Implies,
    Not,
}

/// The 27 reserved words, as in the OCL specification chapter 7.4.11.
#[derive(Clone, Copy, Debug, PartialEq, Eq, Structural)]
pub enum KeywordVariation {
    And,
    Body,
    Context,
    Def,
    Derive,
    Else,
    Endif,
    Endpackage,
    False,
    If,
    Implies,
    In,
    Init,
    Inv,
    Invalid,
    Let,
    Not,
    Null,
    Or,
    Package,
    Post,
    Pre,
    SelfReference,
    Static,
    Then,
    True,
    Xor,
}

/// One lexical token.
#[derive(Clone, Copy, Debug, PartialEq, Eq, Structural)]
pub enum Token {
    Keyword(KeywordVariation),
    Identifier(Span),
    Operator(OperatorVariation),
    Literal(LiteralVariation),
}

/// A token together with the half-open byte range `[from, to)` of the source
/// text it was scanned from.
#[derive(Clone, Copy, Debug, PartialEq, Eq, Structural)]
pub struct LocatedToken {
    pub token: Token,
    pub from: usize,
    pub to: usize,
}

} // verus!
