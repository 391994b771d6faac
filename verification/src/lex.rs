//! The lexer: a single left-to-right scan of the source bytes that produces
//! the token stream, or fails fast on the first lexical error.

use vstd::prelude::*;
use vstd::slice::slice_subrange;

use crate::parsing_error::ErrorModel;
use crate::parsing_error::ParsingError;
use crate::token::KeywordVariation;
use crate::token::LiteralVariation;
use crate::token::LocatedToken;
use crate::token::OperatorVariation;
use crate::token::RealLiteral;
use crate::token::Span;
use crate::token::Token;

verus! {

// --- byte values the lexical grammar singles out ---

/// The byte value of a tab character.
pub const TAB: u8 = 9;
/// The byte value of a line feed.
pub const LINE_FEED: u8 = 10;
/// The byte value of a carriage return.
pub const CARRIAGE_RETURN: u8 = 13;
/// The byte value of a space.
pub const SPACE: u8 = 32;
/// The byte value of the string delimiter, a double quote.
pub const QUOTE: u8 = 34;
/// The byte value of a hyphen-minus, the minus operator and comment starter.
pub const DASH: u8 = 45;
/// The byte value of a full stop, the navigation point and decimal point.
pub const POINT: u8 = 46;
/// The byte value of the digit zero.
pub const DIGIT_ZERO: u8 = 48;
/// The byte value of the digit nine.
pub const DIGIT_NINE: u8 = 57;

// --- character classes of the lexical grammar ---

/// Space, line feed, tab or carriage return: skipped, never part of a token.
pub open spec fn is_whitespace_byte(b: u8) -> bool {
    b == SPACE || b == LINE_FEED || b == TAB || b == CARRIAGE_RETURN
}

/// An ASCII decimal digit.
pub open spec fn is_digit_byte(b: u8) -> bool {
    DIGIT_ZERO <= b && b <= DIGIT_NINE
}

/// An ASCII letter: the only characters of identifiers and keywords.
/// Lower case letters are bytes 97 to 122, upper case 65 to 90.
pub open spec fn is_letter_byte(b: u8) -> bool {
    (97 <= b && b <= 122) || (65 <= b && b <= 90)
}

/// Whether `c` may appear in a keyword or an identifier.  The lexical grammar
/// admits ASCII letters only: digits and underscores are deliberately not
/// identifier characters.
pub fn is_part_of_keyword_or_identifier(c: u8) -> (r: bool)
    ensures
        r == is_letter_byte(c),
{
    (97 <= c && c <= 122) || (65 <= c && c <= 90)
}

// --- the operator tables ---

/// The one-character operator each operator byte stands for on its own, or
/// `None` for a byte outside the operator set.  The bytes are, in the order
/// checked: `. * + - / < > = : , ( ) { } [ ] | @`.
pub open spec fn single_char_operator(b: u8) -> Option<OperatorVariation> {
    if b == 46 {
        Some(OperatorVariation::Point)
    } else if b == 42 {
        Some(OperatorVariation::Star)
    } else if b == 43 {
        Some(OperatorVariation::Plus)
    } else if b == 45 {
        Some(OperatorVariation::Minus)
    } else if b == 47 {
        Some(OperatorVariation::Slash)
    } else if b == 60 {
        Some(OperatorVariation::LessThan)
    } else if b == 62 {
        Some(OperatorVariation::GreaterThan)
    } else if b == 61 {
        Some(OperatorVariation::Equals)
    } else if b == 58 {
        Some(OperatorVariation::Colon)
    } else if b == 44 {
        Some(OperatorVariation::Comma)
    } else if b == 40 {
        Some(OperatorVariation::OpeningRoundBracket)
    } else if b == 41 {
        Some(OperatorVariation::ClosingRoundBracket)
    } else if b == 123 {
        Some(OperatorVariation::OpeningCurlyBracket)
    } else if b == 125 {
        Some(OperatorVariation::ClosingCurlyBracket)
    } else if b == 91 {
        Some(OperatorVariation::OpeningSquareBracket)
    } else if b == 93 {
        Some(OperatorVariation::ClosingSquareBracket)
    } else if b == 124 {
        Some(OperatorVariation::Pipe)
    } else if b == 64 {
        Some(OperatorVariation::AtPre)
    } else {
        None
    }
}

/// The two-character operator formed by the adjacent bytes `a`, `b`, if any.
/// The table holds exactly `..`, `->`, `<=`, `>=`, `<>` and `::`.
pub open spec fn two_char_operator(a: u8, b: u8) -> Option<OperatorVariation> {
    if a == 46 && b == 46 {
        Some(OperatorVariation::DoublePoint)
    } else if a == 45 && b == 62 {
        Some(OperatorVariation::Arrow)
    } else if a == 60 && b == 61 {
        Some(OperatorVariation::LessThanEqual)
    } else if a == 62 && b == 61 {
        Some(OperatorVariation::GreaterThanEqual)
    } else if a == 60 && b == 62 {
        Some(OperatorVariation::Unequals)
    } else if a == 58 && b == 58 {
        Some(OperatorVariation::DoubleColon)
    } else {
        None
    }
}

/// The operator a one- or two-byte run stands for: the whole table behind
/// [`check_operator`].
pub open spec fn operator_of(s: Seq<u8>) -> Option<OperatorVariation> {
    if s.len() == 1 {
        single_char_operator(s[0])
    } else if s.len() == 2 {
        two_char_operator(s[0], s[1])
    } else {
        None
    }
}

fn single_char_operator_exec(b: u8) -> (r: Option<OperatorVariation>)
    ensures
        r == single_char_operator(b),
{
    if b == 46 {
        Some(OperatorVariation::Point)
    } else if b == 42 {
        Some(OperatorVariation::Star)
    } else if b == 43 {
        Some(OperatorVariation::Plus)
    } else if b == 45 {
        Some(OperatorVariation::Minus)
    } else if b == 47 {
        Some(OperatorVariation::Slash)
    } else if b == 60 {
        Some(OperatorVariation::LessThan)
    } else if b == 62 {
        Some(OperatorVariation::GreaterThan)
    } else if b == 61 {
        Some(OperatorVariation::Equals)
    } else if b == 58 {
        Some(OperatorVariation::Colon)
    } else if b == 44 {
        Some(OperatorVariation::Comma)
    } else if b == 40 {
        Some(OperatorVariation::OpeningRoundBracket)
    } else if b == 41 {
        Some(OperatorVariation::ClosingRoundBracket)
    } else if b == 123 {
        Some(OperatorVariation::OpeningCurlyBracket)
    } else if b == 125 {
        Some(OperatorVariation::ClosingCurlyBracket)
    } else if b == 91 {
        Some(OperatorVariation::OpeningSquareBracket)
    } else if b == 93 {
        Some(OperatorVariation::ClosingSquareBracket)
    } else if b == 124 {
        Some(OperatorVariation::Pipe)
    } else if b == 64 {
        Some(OperatorVariation::AtPre)
    } else {
        None
    }
}

fn two_char_operator_exec(a: u8, b: u8) -> (r: Option<OperatorVariation>)
    ensures
        r == two_char_operator(a, b),
{
    if a == 46 && b == 46 {
        Some(OperatorVariation::DoublePoint)
    } else if a == 45 && b == 62 {
        Some(OperatorVariation::Arrow)
    } else if a == 60 && b == 61 {
        Some(OperatorVariation::LessThanEqual)
    } else if a == 62 && b == 61 {
        Some(OperatorVariation::GreaterThanEqual)
    } else if a == 60 && b == 62 {
        Some(OperatorVariation::Unequals)
    } else if a == 58 && b == 58 {
        Some(OperatorVariation::DoubleColon)
    } else {
        None
    }
}

/// Looks a one- or two-character run up in the fixed operator table.
pub fn check_operator(input: &[u8]) -> (r: Option<OperatorVariation>)
    ensures
        r == operator_of(input@),
{
    if input.len() == 1 {
        single_char_operator_exec(input[0])
    } else if input.len() == 2 {
        two_char_operator_exec(input[0], input[1])
    } else {
        None
    }
}

// --- positions where the scanning rules stop ---

/// The end of the digit run that starts at `i`: the first position at or
/// after `i` that is past the input or holds a non-digit.
pub open spec fn digits_end(s: Seq<u8>, i: int) -> int
    decreases s.len() - i,
{
    if i < 0 || i >= s.len() {
        i
    } else if !is_digit_byte(s[i]) {
        i
    } else {
        digits_end(s, i + 1)
    }
}

/// The end of the letter run that starts at `i`.
pub open spec fn letters_end(s: Seq<u8>, i: int) -> int
    decreases s.len() - i,
{
    if i < 0 || i >= s.len() {
        i
    } else if !is_letter_byte(s[i]) {
        i
    } else {
        letters_end(s, i + 1)
    }
}

/// The position of the first closing quote at or after `i`, or the input
/// length if the string literal is never terminated.
pub open spec fn string_close(s: Seq<u8>, i: int) -> int
    decreases s.len() - i,
{
    if i < 0 || i >= s.len() {
        s.len() as int
    } else if s[i] == QUOTE {
        i
    } else {
        string_close(s, i + 1)
    }
}

/// The position right after the line feed that ends a comment scanned from
/// `i` on, or the input length if the comment runs to the end of input.
pub open spec fn comment_end(s: Seq<u8>, i: int) -> int
    decreases s.len() - i,
{
    if i < 0 || i >= s.len() {
        s.len() as int
    } else if s[i] == LINE_FEED {
        i + 1
    } else {
        comment_end(s, i + 1)
    }
}

/// The numeric value of the digit run `s[i..j]`, read in base ten.
pub open spec fn digits_value(s: Seq<u8>, i: int, j: int) -> int
    decreases j - i,
{
    if j <= i {
        0
    } else {
        digits_value(s, i, j - 1) * 10 + (s[j - 1] - DIGIT_ZERO)
    }
}

/// What [`digits_end`] returns: the position bounds, that everything before
/// it is a digit, and that it stops only at the input's end or a non-digit.
pub proof fn lemma_digits_end_props(s: Seq<u8>, i: int)
    requires
        0 <= i <= s.len(),
    ensures
        i <= digits_end(s, i) <= s.len(),
        forall|k: int| i <= k < digits_end(s, i) ==> is_digit_byte(s[k]),
        digits_end(s, i) < s.len() ==> !is_digit_byte(s[digits_end(s, i)]),
    decreases s.len() - i,
{
    if i < s.len() && is_digit_byte(s[i]) {
        lemma_digits_end_props(s, i + 1);
    }
}

/// What [`letters_end`] returns, in the manner of [`lemma_digits_end_props`].
pub proof fn lemma_letters_end_props(s: Seq<u8>, i: int)
    requires
        0 <= i <= s.len(),
    ensures
        i <= letters_end(s, i) <= s.len(),
        forall|k: int| i <= k < letters_end(s, i) ==> is_letter_byte(s[k]),
        letters_end(s, i) < s.len() ==> !is_letter_byte(s[letters_end(s, i)]),
    decreases s.len() - i,
{
    if i < s.len() && is_letter_byte(s[i]) {
        lemma_letters_end_props(s, i + 1);
    }
}

/// What [`string_close`] returns: its bounds, that no quote lies before it,
/// and that it lands on a quote whenever one exists.
pub proof fn lemma_string_close_props(s: Seq<u8>, i: int)
    requires
        0 <= i <= s.len(),
    ensures
        i <= string_close(s, i) <= s.len(),
        forall|k: int| i <= k < string_close(s, i) ==> s[k] != QUOTE,
        string_close(s, i) < s.len() ==> s[string_close(s, i)] == QUOTE,
    decreases s.len() - i,
{
    if i < s.len() && s[i] != QUOTE {
        lemma_string_close_props(s, i + 1);
    }
}

/// What [`comment_end`] returns: a position after `i` and within the input.
pub proof fn lemma_comment_end_props(s: Seq<u8>, i: int)
    requires
        0 <= i <= s.len(),
    ensures
        i <= comment_end(s, i) <= s.len(),
    decreases s.len() - i,
{
    if i < s.len() && s[i] != LINE_FEED {
        lemma_comment_end_props(s, i + 1);
    }
}

/// A digit run's value is never negative.
proof fn lemma_digits_value_nonneg(s: Seq<u8>, i: int, j: int)
    requires
        forall|k: int| i <= k < j ==> is_digit_byte(s[k]),
    ensures
        digits_value(s, i, j) >= 0,
    decreases j - i,
{
    if j > i {
        lemma_digits_value_nonneg(s, i, j - 1);
    }
}

/// Extending a digit run to the right never shrinks its value.
proof fn lemma_digits_value_mono(s: Seq<u8>, i: int, m: int, j: int)
    requires
        i <= m <= j,
        forall|k: int| i <= k < j ==> is_digit_byte(s[k]),
    ensures
        digits_value(s, i, m) <= digits_value(s, i, j),
    decreases j - m,
{
    if m < j {
        lemma_digits_value_mono(s, i, m, j - 1);
        lemma_digits_value_nonneg(s, i, j - 1);
    }
}

// --- the executable scanners ---

/// Walks to the end of the digit run that starts at `start`.
fn scan_digits(s: &[u8], start: usize) -> (j: usize)
    requires
        start <= s@.len(),
    ensures
        j == digits_end(s@, start as int),
        start <= j <= s@.len(),
{
    let mut k = start;
    while k < s.len() && 48 <= s[k] && s[k] <= 57
        invariant
            start <= k <= s@.len(),
            digits_end(s@, start as int) == digits_end(s@, k as int),
        decreases s@.len() - k,
    {
        k = k + 1;
    }
    k
}

/// Walks to the end of the letter run that starts at `start`.
fn scan_letters(s: &[u8], start: usize) -> (j: usize)
    requires
        start <= s@.len(),
    ensures
        j == letters_end(s@, start as int),
        start <= j <= s@.len(),
{
    let mut k = start;
    while k < s.len() && is_part_of_keyword_or_identifier(s[k])
        invariant
            start <= k <= s@.len(),
            letters_end(s@, start as int) == letters_end(s@, k as int),
        decreases s@.len() - k,
    {
        k = k + 1;
    }
    k
}

/// Walks to the first closing quote at or after `start`, or to end of input.
fn scan_string_close(s: &[u8], start: usize) -> (j: usize)
    requires
        start <= s@.len(),
    ensures
        j == string_close(s@, start as int),
        start <= j <= s@.len(),
{
    let mut k = start;
    while k < s.len() && s[k] != 34
        invariant
            start <= k <= s@.len(),
            string_close(s@, start as int) == string_close(s@, k as int),
        decreases s@.len() - k,
    {
        k = k + 1;
    }
    k
}

/// Walks past the line feed that ends a comment scanned from `start` on, or
/// to end of input.
fn scan_comment_end(s: &[u8], start: usize) -> (j: usize)
    requires
        start <= s@.len(),
    ensures
        j == comment_end(s@, start as int),
        start <= j <= s@.len(),
{
    let mut k = start;
    while k < s.len() && s[k] != 10
        invariant
            start <= k <= s@.len(),
            comment_end(s@, start as int) == comment_end(s@, k as int),
        decreases s@.len() - k,
    {
        k = k + 1;
    }
    if k < s.len() {
        k + 1
    } else {
        k
    }
}

/// Reads the value of the digit run `s[start..end]`, or reports that it
/// exceeds `limit`.
fn digits_to_value(s: &[u8], start: usize, end: usize, limit: u64) -> (r: Option<u64>)
    requires
        start <= end <= s@.len(),
        forall|k: int| start <= k < end ==> is_digit_byte(s@[k]),
    ensures
        match r {
            Some(v) => digits_value(s@, start as int, end as int) == v as int && v <= limit,
            None => digits_value(s@, start as int, end as int) > limit,
        },
{
    let mut k = start;
    let mut acc: u128 = 0;
    while k < end
        invariant
            start <= k <= end <= s@.len(),
            forall|m: int| start <= m < end ==> is_digit_byte(s@[m]),
            acc as int == digits_value(s@, start as int, k as int),
            acc <= limit as u128,
        decreases end - k,
    {
        let d = s[k];
        assert(is_digit_byte(s@[k as int]));
        let nv: u128 = acc * 10 + ((d - 48) as u128);
        if nv > limit as u128 {
            proof {
                lemma_digits_value_mono(s@, start as int, k as int + 1, end as int);
            }
            return None;
        }
        acc = nv;
        k = k + 1;
    }
    Some(acc as u64)
}

// --- the keyword table ---

/// The reserved word a letter run stands for, or `None` for an identifier.
/// Each arm compares, byte for byte and case-sensitively, against one of the
/// 27 reserved words; the comparisons spell the words in ASCII byte values.
pub open spec fn keyword_of(s: Seq<u8>) -> Option<KeywordVariation> {
    if s.len() == 3 && s[0] == 97 && s[1] == 110 && s[2] == 100 {
        Some(KeywordVariation::And)
    } else if s.len() == 4 && s[0] == 98 && s[1] == 111 && s[2] == 100 && s[3] == 121 {
        Some(KeywordVariation::Body)
    } else if s.len() == 7 && s[0] == 99 && s[1] == 111 && s[2] == 110 && s[3] == 116 && s[4]
        == 101 && s[5] == 120 && s[6] == 116 {
        Some(KeywordVariation::Context)
    } else if s.len() == 3 && s[0] == 100 && s[1] == 101 && s[2] == 102 {
        Some(KeywordVariation::Def)
    } else if s.len() == 6 && s[0] == 100 && s[1] == 101 && s[2] == 114 && s[3] == 105 && s[4]
        == 118 && s[5] == 101 {
        Some(KeywordVariation::Derive)
    } else if s.len() == 4 && s[0] == 101 && s[1] == 108 && s[2] == 115 && s[3] == 101 {
        Some(KeywordVariation::Else)
    } else if s.len() == 5 && s[0] == 101 && s[1] == 110 && s[2] == 100 && s[3] == 105 && s[4]
        == 102 {
        Some(KeywordVariation::Endif)
    } else if s.len() == 10 && s[0] == 101 && s[1] == 110 && s[2] == 100 && s[3] == 112 && s[4]
        == 97 && s[5] == 99 && s[6] == 107 && s[7] == 97 && s[8] == 103 && s[9] == 101 {
        Some(KeywordVariation::Endpackage)
    } else if s.len() == 5 && s[0] == 102 && s[1] == 97 && s[2] == 108 && s[3] == 115 && s[4]
        == 101 {
        Some(KeywordVariation::False)
    } else if s.len() == 2 && s[0] == 105 && s[1] == 102 {
        Some(KeywordVariation::If)
    } else if s.len() == 7 && s[0] == 105 && s[1] == 109 && s[2] == 112 && s[3] == 108 && s[4]
        == 105 && s[5] == 101 && s[6] == 115 {
        Some(KeywordVariation::Implies)
    } else if s.len() == 2 && s[0] == 105 && s[1] == 110 {
        Some(KeywordVariation::In)
    } else if s.len() == 4 && s[0] == 105 && s[1] == 110 && s[2] == 105 && s[3] == 116 {
        Some(KeywordVariation::Init)
    } else if s.len() == 3 && s[0] == 105 && s[1] == 110 && s[2] == 118 {
        Some(KeywordVariation::Inv)
    } else if s.len() == 7 && s[0] == 105 && s[1] == 110 && s[2] == 118 && s[3] == 97 && s[4]
        == 108 && s[5] == 105 && s[6] == 100 {
        Some(KeywordVariation::Invalid)
    } else if s.len() == 3 && s[0] == 108 && s[1] == 101 && s[2] == 116 {
        Some(KeywordVariation::Let)
    } else if s.len() == 3 && s[0] == 110 && s[1] == 111 && s[2] == 116 {
        Some(KeywordVariation::Not)
    } else if s.len() == 4 && s[0] == 110 && s[1] == 117 && s[2] == 108 && s[3] == 108 {
        Some(KeywordVariation::Null)
    } else if s.len() == 2 && s[0] == 111 && s[1] == 114 {
        Some(KeywordVariation::Or)
    } else if s.len() == 7 && s[0] == 112 && s[1] == 97 && s[2] == 99 && s[3] == 107 && s[4]
        == 97 && s[5] == 103 && s[6] == 101 {
        Some(KeywordVariation::Package)
    } else if s.len() == 4 && s[0] == 112 && s[1] == 111 && s[2] == 115 && s[3] == 116 {
        Some(KeywordVariation::Post)
    } else if s.len() == 3 && s[0] == 112 && s[1] == 114 && s[2] == 101 {
        Some(KeywordVariation::Pre)
    } else if s.len() == 4 && s[0] == 115 && s[1] == 101 && s[2] == 108 && s[3] == 102 {
        Some(KeywordVariation::SelfReference)
    } else if s.len() == 6 && s[0] == 115 && s[1] == 116 && s[2] == 97 && s[3] == 116 && s[4]
        == 105 && s[5] == 99 {
        Some(KeywordVariation::Static)
    } else if s.len() == 4 && s[0] == 116 && s[1] == 104 && s[2] == 101 && s[3] == 110 {
        Some(KeywordVariation::Then)
    } else if s.len() == 4 && s[0] == 116 && s[1] == 114 && s[2] == 117 && s[3] == 101 {
        Some(KeywordVariation::True)
    } else if s.len() == 3 && s[0] == 120 && s[1] == 111 && s[2] == 114 {
        Some(KeywordVariation::Xor)
    } else {
        None
    }
}

/// Looks a letter run up in the fixed, case-sensitive 27-word keyword table.
pub fn check_keyword(input: &[u8]) -> (r: Option<KeywordVariation>)
    ensures
        r == keyword_of(input@),
{
    if input.len() == 3 && input[0] == 97 && input[1] == 110 && input[2] == 100 {
        Some(KeywordVariation::And)
    } else if input.len() == 4 && input[0] == 98 && input[1] == 111 && input[2] == 100 && input[3]
        == 121 {
        Some(KeywordVariation::Body)
    } else if input.len() == 7 && input[0] == 99 && input[1] == 111 && input[2] == 110 && input[3]
        == 116 && input[4] == 101 && input[5] == 120 && input[6] == 116 {
        Some(KeywordVariation::Context)
    } else if input.len() == 3 && input[0] == 100 && input[1] == 101 && input[2] == 102 {
        Some(KeywordVariation::Def)
    } else if input.len() == 6 && input[0] == 100 && input[1] == 101 && input[2] == 114 && input[3]
        == 105 && input[4] == 118 && input[5] == 101 {
        Some(KeywordVariation::Derive)
    } else if input.len() == 4 && input[0] == 101 && input[1] == 108 && input[2] == 115 && input[3]
        == 101 {
        Some(KeywordVariation::Else)
    } else if input.len() == 5 && input[0] == 101 && input[1] == 110 && input[2] == 100 && input[3]
        == 105 && input[4] == 102 {
        Some(KeywordVariation::Endif)
    } else if input.len() == 10 && input[0] == 101 && input[1] == 110 && input[2] == 100
        && input[3] == 112 && input[4] == 97 && input[5] == 99 && input[6] == 107 && input[7] == 97
        && input[8] == 103 && input[9] == 101 {
        Some(KeywordVariation::Endpackage)
    } else if input.len() == 5 && input[0] == 102 && input[1] == 97 && input[2] == 108 && input[3]
        == 115 && input[4] == 101 {
        Some(KeywordVariation::False)
    } else if input.len() == 2 && input[0] == 105 && input[1] == 102 {
        Some(KeywordVariation::If)
    } else if input.len() == 7 && input[0] == 105 && input[1] == 109 && input[2] == 112 && input[3]
        == 108 && input[4] == 105 && input[5] == 101 && input[6] == 115 {
        Some(KeywordVariation::Implies)
    } else if input.len() == 2 && input[0] == 105 && input[1] == 110 {
        Some(KeywordVariation::In)
    } else if input.len() == 4 && input[0] == 105 && input[1] == 110 && input[2] == 105 && input[3]
        == 116 {
        Some(KeywordVariation::Init)
    } else if input.len() == 3 && input[0] == 105 && input[1] == 110 && input[2] == 118 {
        Some(KeywordVariation::Inv)
    } else if input.len() == 7 && input[0] == 105 && input[1] == 110 && input[2] == 118 && input[3]
        == 97 && input[4] == 108 && input[5] == 105 && input[6] == 100 {
        Some(KeywordVariation::Invalid)
    } else if input.len() == 3 && input[0] == 108 && input[1] == 101 && input[2] == 116 {
        Some(KeywordVariation::Let)
    } else if input.len() == 3 && input[0] == 110 && input[1] == 111 && input[2] == 116 {
        Some(KeywordVariation::Not)
    } else if input.len() == 4 && input[0] == 110 && input[1] == 117 && input[2] == 108 && input[3]
        == 108 {
        Some(KeywordVariation::Null)
    } else if input.len() == 2 && input[0] == 111 && input[1] == 114 {
        Some(KeywordVariation::Or)
    } else if input.len() == 7 && input[0] == 112 && input[1] == 97 && input[2] == 99 && input[3]
        == 107 && input[4] == 97 && input[5] == 103 && input[6] == 101 {
        Some(KeywordVariation::Package)
    } else if input.len() == 4 && input[0] == 112 && input[1] == 111 && input[2] == 115 && input[3]
        == 116 {
        Some(KeywordVariation::Post)
    } else if input.len() == 3 && input[0] == 112 && input[1] == 114 && input[2] == 101 {
        Some(KeywordVariation::Pre)
    } else if input.len() == 4 && input[0] == 115 && input[1] == 101 && input[2] == 108 && input[3]
        == 102 {
        Some(KeywordVariation::SelfReference)
    } else if input.len() == 6 && input[0] == 115 && input[1] == 116 && input[2] == 97 && input[3]
        == 116 && input[4] == 105 && input[5] == 99 {
        Some(KeywordVariation::Static)
    } else if input.len() == 4 && input[0] == 116 && input[1] == 104 && input[2] == 101 && input[3]
        == 110 {
        Some(KeywordVariation::Then)
    } else if input.len() == 4 && input[0] == 116 && input[1] == 114 && input[2] == 117 && input[3]
        == 101 {
        Some(KeywordVariation::True)
    } else if input.len() == 3 && input[0] == 120 && input[1] == 111 && input[2] == 114 {
        Some(KeywordVariation::Xor)
    } else {
        None
    }
}

// --- the scan itself, as a mathematical function ---

/// Puts `t` in front of the tokens of `rest`, or passes `rest`'s error on.
pub open spec fn with_token(t: LocatedToken, rest: Result<Seq<LocatedToken>, ErrorModel>) -> Result<
    Seq<LocatedToken>,
    ErrorModel,
> {
    match rest {
        Ok(ts) => Ok(seq![t] + ts),
        Err(e) => Err(e),
    }
}

/// The token stream that scanning `s` from position `i` onward yields, or the
/// first lexical error.  This is the scanning algorithm itself: each branch is
/// one of the scanning rules, checked in their priority order (whitespace,
/// comment, numeral, string literal, operator, keyword or identifier, invalid
/// character).
///
/// Two rules deserve a note.  A decimal point counts as part of a numeral
/// only when a digit follows it directly and no point was accepted yet; a
/// numeral ends before any second point, which is then scanned as an operator
/// of its own.  And a numeral whose value does not fit the token model's
/// 64 bits (signed for integers, unsigned for each part of a real) is
/// reported as a lexical error rather than scanned wrongly.
pub open spec fn lex_from(s: Seq<u8>, i: int) -> Result<Seq<LocatedToken>, ErrorModel>
    decreases s.len() - i,
        via lex_from_decreases
{
    if i < 0 || i >= s.len() {
        Ok(Seq::empty())
    } else {
        let b = s[i];
        if is_whitespace_byte(b) {
            lex_from(s, i + 1)
        } else if b == DASH && i + 1 < s.len() && s[i + 1] == DASH {
            lex_from(s, comment_end(s, i + 2))
        } else if is_digit_byte(b) {
            let j1 = digits_end(s, i);
            if j1 < s.len() && s[j1] == POINT && j1 + 1 < s.len() && is_digit_byte(s[j1 + 1]) {
                let j2 = digits_end(s, j1 + 1);
                let whole = digits_value(s, i, j1);
                let frac = digits_value(s, j1 + 1, j2);
                if whole <= u64::MAX && frac <= u64::MAX {
                    with_token(
                        LocatedToken {
                            token: Token::Literal(
                                LiteralVariation::Real(
                                    RealLiteral {
                                        whole: whole as u64,
                                        frac: frac as u64,
                                        frac_len: (j2 - (j1 + 1)) as usize,
                                    },
                                ),
                            ),
                            from: i as usize,
                            to: j2 as usize,
                        },
                        lex_from(s, j2),
                    )
                } else {
                    Err(ErrorModel { msg: "Numeric literal out of range"@, from: i, to: j2 })
                }
            } else {
                let v = digits_value(s, i, j1);
                if v <= i64::MAX {
                    with_token(
                        LocatedToken {
                            token: Token::Literal(LiteralVariation::Integer(v as i64)),
                            from: i as usize,
                            to: j1 as usize,
                        },
                        lex_from(s, j1),
                    )
                } else {
                    Err(ErrorModel { msg: "Numeric literal out of range"@, from: i, to: j1 })
                }
            }
        } else if b == QUOTE {
            let q = string_close(s, i + 1);
            if q >= s.len() {
                Err(
                    ErrorModel {
                        msg: "String was not terminated. Awaited '\"'."@,
                        from: i,
                        to: s.len() as int,
                    },
                )
            } else {
                with_token(
                    LocatedToken {
                        token: Token::Literal(
                            LiteralVariation::String(Span { from: (i + 1) as usize, to: q as usize }),
                        ),
                        from: i as usize,
                        to: (q + 1) as usize,
                    },
                    lex_from(s, q + 1),
                )
            }
        } else {
            match single_char_operator(b) {
                Some(op1) => {
                    let two = if i + 1 < s.len() {
                        two_char_operator(b, s[i + 1])
                    } else {
                        None
                    };
                    match two {
                        Some(op2) => with_token(
                            LocatedToken {
                                token: Token::Operator(op2),
                                from: i as usize,
                                to: (i + 2) as usize,
                            },
                            lex_from(s, i + 2),
                        ),
                        None => with_token(
                            LocatedToken {
                                token: Token::Operator(op1),
                                from: i as usize,
                                to: (i + 1) as usize,
                            },
                            lex_from(s, i + 1),
                        ),
                    }
                },
                None => {
                    if is_letter_byte(b) {
                        let j = letters_end(s, i);
                        let t = match keyword_of(s.subrange(i, j)) {
                            Some(k) => Token::Keyword(k),
                            None => Token::Identifier(Span { from: i as usize, to: j as usize }),
                        };
                        with_token(
                            LocatedToken { token: t, from: i as usize, to: j as usize },
                            lex_from(s, j),
                        )
                    } else {
                        Err(ErrorModel { msg: "Invalid character"@, from: i, to: i + 1 })
                    }
                },
            }
        }
    }
}

// --- the executable scan ---

/// Puts `lt` in front of the tokens of `r`, or passes `r`'s error on: the
/// executable shape of [`with_token`].
fn push_front(lt: LocatedToken, r: Result<Vec<LocatedToken>, ParsingError>) -> (out: Result<
    Vec<LocatedToken>,
    ParsingError,
>)
    ensures
        match (r, out) {
            (Ok(v), Ok(w)) => w@ == seq![lt] + v@,
            (Err(e), Err(f)) => f@ == e@,
            _ => false,
        },
{
    match r {
        Ok(mut v) => {
            let ghost rest = v@;
            v.insert(0, lt);
            proof {
                assert(v@ =~= seq![lt] + rest);
            }
            Ok(v)
        },
        Err(e) => Err(e),
    }
}

/// Scans the input from byte position `i` onward, producing exactly the
/// tokens of [`lex_from`] or exactly its error.
fn lex_at(input: &[u8], i: usize) -> (r: Result<Vec<LocatedToken>, ParsingError>)
    requires
        i <= input@.len(),
    ensures
        r is Ok ==> lex_from(input@, i as int) == Ok::<Seq<LocatedToken>, ErrorModel>(r->Ok_0@),
        r is Err ==> lex_from(input@, i as int) == Err::<Seq<LocatedToken>, ErrorModel>(r->Err_0@),
    decreases input@.len() - i,
{
    if i >= input.len() {
        let out: Vec<LocatedToken> = Vec::new();
        assert(out@ =~= Seq::<LocatedToken>::empty());
        return Ok(out);
    }
    let b = input[i];
    if b == 32 || b == 10 || b == 9 || b == 13 {
        lex_at(input, i + 1)
    } else if b == 45 && i + 1 < input.len() && input[i + 1] == 45 {
        let j = scan_comment_end(input, i + 2);
        proof {
            lemma_comment_end_props(input@, i as int + 2);
        }
        lex_at(input, j)
    } else if 48 <= b && b <= 57 {
        let j1 = scan_digits(input, i);
        proof {
            lemma_digits_end_props(input@, i as int);
            lemma_digits_end_props(input@, i as int + 1);
            assert(digits_end(input@, i as int) == digits_end(input@, i as int + 1));
        }
        if j1 < input.len() && input[j1] == 46 && j1 + 1 < input.len() && 48 <= input[j1 + 1]
            && input[j1 + 1] <= 57 {
            let j2 = scan_digits(input, j1 + 1);
            proof {
                lemma_digits_end_props(input@, j1 as int + 1);
            }
            let w = digits_to_value(input, i, j1, u64::MAX);
            let f = digits_to_value(input, j1 + 1, j2, u64::MAX);
            match (w, f) {
                (Some(wv), Some(fv)) => {
                    proof {
                        lemma_digits_value_nonneg(input@, i as int, j1 as int);
                        lemma_digits_value_nonneg(input@, j1 as int + 1, j2 as int);
                    }
                    let lt = LocatedToken {
                        token: Token::Literal(
                            LiteralVariation::Real(
                                RealLiteral { whole: wv, frac: fv, frac_len: j2 - (j1 + 1) },
                            ),
                        ),
                        from: i,
                        to: j2,
                    };
                    push_front(lt, lex_at(input, j2))
                },
                _ => Err(ParsingError::new("Numeric literal out of range", i, j2)),
            }
        } else {
            match digits_to_value(input, i, j1, i64::MAX as u64) {
                Some(vv) => {
                    proof {
                        lemma_digits_value_nonneg(input@, i as int, j1 as int);
                    }
                    let lt = LocatedToken {
                        token: Token::Literal(LiteralVariation::Integer(vv as i64)),
                        from: i,
                        to: j1,
                    };
                    push_front(lt, lex_at(input, j1))
                },
                None => Err(ParsingError::new("Numeric literal out of range", i, j1)),
            }
        }
    } else if b == 34 {
        let q = scan_string_close(input, i + 1);
        proof {
            lemma_string_close_props(input@, i as int + 1);
        }
        if q >= input.len() {
            Err(ParsingError::new("String was not terminated. Awaited '\"'.", i, input.len()))
        } else {
            let lt = LocatedToken {
                token: Token::Literal(LiteralVariation::String(Span { from: i + 1, to: q })),
                from: i,
                to: q + 1,
            };
            push_front(lt, lex_at(input, q + 1))
        }
    } else {
        match single_char_operator_exec(b) {
            Some(op1) => {
                let two = if i + 1 < input.len() {
                    two_char_operator_exec(b, input[i + 1])
                } else {
                    None
                };
                match two {
                    Some(op2) => {
                        let lt = LocatedToken { token: Token::Operator(op2), from: i, to: i + 2 };
                        push_front(lt, lex_at(input, i + 2))
                    },
                    None => {
                        let lt = LocatedToken { token: Token::Operator(op1), from: i, to: i + 1 };
                        push_front(lt, lex_at(input, i + 1))
                    },
                }
            },
            None => {
                if is_part_of_keyword_or_identifier(b) {
                    let j = scan_letters(input, i);
                    proof {
                        lemma_letters_end_props(input@, i as int);
                        lemma_letters_end_props(input@, i as int + 1);
                        assert(letters_end(input@, i as int) == letters_end(input@, i as int + 1));
                    }
                    let word = slice_subrange(input, i, j);
                    let t = match check_keyword(word) {
                        Some(k) => Token::Keyword(k),
                        None => Token::Identifier(Span { from: i, to: j }),
                    };
                    let lt = LocatedToken { token: t, from: i, to: j };
                    push_front(lt, lex_at(input, j))
                } else {
                    Err(ParsingError::new("Invalid character", i, i + 1))
                }
            },
        }
    }
}

/// Scans the whole input into located tokens.
pub(crate) fn lex_located(input: &[u8]) -> (r: Result<Vec<LocatedToken>, ParsingError>)
    ensures
        r is Ok ==> lex_from(input@, 0) == Ok::<Seq<LocatedToken>, ErrorModel>(r->Ok_0@),
        r is Err ==> lex_from(input@, 0) == Err::<Seq<LocatedToken>, ErrorModel>(r->Err_0@),
{
    lex_at(input, 0)
}

/// Scans the input left to right in a single pass into its token stream, or
/// fails with the first lexical error.  The tokens are exactly those of the
/// scanning function [`lex_from`], in source order, stripped of their spans.
pub fn lex(input: &[u8]) -> (r: Result<Vec<Token>, ParsingError>)
    ensures
        (r is Ok) == (lex_from(input@, 0) is Ok),
        r is Ok ==> r->Ok_0@ == lex_from(input@, 0)->Ok_0.map_values(|lt: LocatedToken| lt.token),
        r is Err ==> r->Err_0@ == lex_from(input@, 0)->Err_0,
{
    match lex_at(input, 0) {
        Ok(lts) => {
            let mut out: Vec<Token> = Vec::new();
            let mut k: usize = 0;
            while k < lts.len()
                invariant
                    k <= lts@.len(),
                    out@.len() == k,
                    forall|m: int| 0 <= m < k ==> out@[m] == lts@[m].token,
                decreases lts@.len() - k,
            {
                out.push(lts[k].token);
                k = k + 1;
            }
            proof {
                assert(out@ =~= lts@.map_values(|lt: LocatedToken| lt.token));
            }
            Ok(out)
        },
        Err(e) => Err(e),
    }
}

// --- laws of the scanner ---

/// Lexing is deterministic: the token stream, or the error, is a function of
/// the input bytes alone, so two scans of the same input agree structurally.
pub proof fn lemma_lex_deterministic(
    s: Seq<u8>,
    r1: Result<Seq<LocatedToken>, ErrorModel>,
    r2: Result<Seq<LocatedToken>, ErrorModel>,
)
    requires
        r1 == lex_from(s, 0),
        r2 == lex_from(s, 0),
    ensures
        r1 == r2,
{
}

/// Coverage of integer numerals: an input that is one digit run, whose value
/// fits the signed 64-bit token payload, scans to exactly one integer literal
/// token that spans the whole input and carries the run's exact value.
pub proof fn lemma_lex_integer_numeral(s: Seq<u8>)
    requires
        s.len() > 0,
        forall|k: int| 0 <= k < s.len() ==> is_digit_byte(s[k]),
        digits_value(s, 0, s.len() as int) <= i64::MAX,
    ensures
        lex_from(s, 0) == Ok::<Seq<LocatedToken>, ErrorModel>(
            seq![
                LocatedToken {
                    token: Token::Literal(
                        LiteralVariation::Integer(digits_value(s, 0, s.len() as int) as i64),
                    ),
                    from: 0,
                    to: s.len() as usize,
                },
            ],
        ),
{
    lemma_digits_end_props(s, 0);
    assert(digits_end(s, 0) == s.len());
    lemma_digits_value_nonneg(s, 0, s.len() as int);
    let tok = LocatedToken {
        token: Token::Literal(
            LiteralVariation::Integer(digits_value(s, 0, s.len() as int) as i64),
        ),
        from: 0,
        to: s.len() as usize,
    };
    assert(lex_from(s, s.len() as int) == Ok::<Seq<LocatedToken>, ErrorModel>(Seq::empty()));
    assert(seq![tok] + Seq::<LocatedToken>::empty() =~= seq![tok]);
}

/// Coverage of real numerals: an input of the shape `digits.digits`, with the
/// point at position `p` and both parts fitting 64 bits, scans to exactly one
/// real literal token that spans the whole input and carries both digit runs'
/// exact values and the fractional run's length.
pub proof fn lemma_lex_real_numeral(s: Seq<u8>, p: int)
    requires
        1 <= p <= s.len() - 2,
        s[p] == POINT,
        forall|k: int| 0 <= k < p ==> is_digit_byte(s[k]),
        forall|k: int| p < k < s.len() ==> is_digit_byte(s[k]),
        digits_value(s, 0, p) <= u64::MAX,
        digits_value(s, p + 1, s.len() as int) <= u64::MAX,
    ensures
        lex_from(s, 0) == Ok::<Seq<LocatedToken>, ErrorModel>(
            seq![
                LocatedToken {
                    token: Token::Literal(
                        LiteralVariation::Real(
                            RealLiteral {
                                whole: digits_value(s, 0, p) as u64,
                                frac: digits_value(s, p + 1, s.len() as int) as u64,
                                frac_len: (s.len() - p - 1) as usize,
                            },
                        ),
                    ),
                    from: 0,
                    to: s.len() as usize,
                },
            ],
        ),
{
    lemma_digits_end_props(s, 0);
    assert(digits_end(s, 0) == p);
    lemma_digits_end_props(s, p + 1);
    assert(digits_end(s, p + 1) == s.len());
    lemma_digits_value_nonneg(s, 0, p);
    lemma_digits_value_nonneg(s, p + 1, s.len() as int);
    let tok = LocatedToken {
        token: Token::Literal(
            LiteralVariation::Real(
                RealLiteral {
                    whole: digits_value(s, 0, p) as u64,
                    frac: digits_value(s, p + 1, s.len() as int) as u64,
                    frac_len: (s.len() - p - 1) as usize,
                },
            ),
        ),
        from: 0,
        to: s.len() as usize,
    };
    assert(lex_from(s, s.len() as int) == Ok::<Seq<LocatedToken>, ErrorModel>(Seq::empty()));
    assert(seq![tok] + Seq::<LocatedToken>::empty() =~= seq![tok]);
}

/// Keyword/identifier partition: an input that is one ASCII letter run scans
/// to exactly one token spanning the whole input; it is a keyword token
/// exactly when the run is one of the 27 reserved words, byte for byte, and
/// otherwise an identifier token whose span is the whole run.
pub proof fn lemma_lex_letter_run(s: Seq<u8>)
    requires
        s.len() > 0,
        forall|k: int| 0 <= k < s.len() ==> is_letter_byte(s[k]),
    ensures
        keyword_of(s) is Some ==> lex_from(s, 0) == Ok::<Seq<LocatedToken>, ErrorModel>(
            seq![
                LocatedToken {
                    token: Token::Keyword(keyword_of(s)->Some_0),
                    from: 0,
                    to: s.len() as usize,
                },
            ],
        ),
        keyword_of(s) is None ==> lex_from(s, 0) == Ok::<Seq<LocatedToken>, ErrorModel>(
            seq![
                LocatedToken {
                    token: Token::Identifier(Span { from: 0, to: s.len() as usize }),
                    from: 0,
                    to: s.len() as usize,
                },
            ],
        ),
{
    lemma_letters_end_props(s, 0);
    assert(letters_end(s, 0) == s.len());
    assert(s.subrange(0, s.len() as int) =~= s);
    let t = match keyword_of(s) {
        Some(k) => Token::Keyword(k),
        None => Token::Identifier(Span { from: 0, to: s.len() as usize }),
    };
    let tok = LocatedToken { token: t, from: 0, to: s.len() as usize };
    assert(lex_from(s, s.len() as int) == Ok::<Seq<LocatedToken>, ErrorModel>(Seq::empty()));
    assert(seq![tok] + Seq::<LocatedToken>::empty() =~= seq![tok]);
}

/// The step shared by every token-producing branch of
/// [`lemma_lex_spans_ordered`]: one token with a sound span in front of the
/// tokens of the rest of the input.
proof fn lemma_spans_step(s: Seq<u8>, i: int, lt: LocatedToken, j: int, toks: Seq<LocatedToken>)
    requires
        s.len() <= usize::MAX,
        0 <= i <= lt.from,
        (lt.from as int) < lt.to,
        lt.to <= j <= s.len(),
        i < j,
        lex_from(s, j) is Ok,
        toks == seq![lt] + lex_from(s, j)->Ok_0,
    ensures
        forall|k: int|
            0 <= k < toks.len() ==> i <= #[trigger] toks[k].from && (toks[k].from as int)
                < toks[k].to && toks[k].to <= s.len(),
        forall|k: int| 0 <= k < toks.len() - 1 ==> #[trigger] toks[k].to <= toks[k + 1].from,
    decreases s.len() - i, 0int,
{
    let rest = lex_from(s, j)->Ok_0;
    lemma_lex_spans_ordered(s, j, rest);
    assert(toks[0] == lt);
    assert forall|k: int|
        0 <= k < toks.len() implies i <= #[trigger] toks[k].from && (toks[k].from as int)
        < toks[k].to && toks[k].to <= s.len() by {
        if k > 0 {
            assert(toks[k] == rest[k - 1]);
        }
    }
    assert forall|k: int| 0 <= k < toks.len() - 1 implies #[trigger] toks[k].to <= toks[k
        + 1].from by {
        if k == 0 {
            assert(toks[1] == rest[0]);
        } else {
            assert(toks[k] == rest[k - 1]);
            assert(toks[k + 1] == rest[k]);
        }
    }
}

/// The token stream's span invariant: every token's span is a non-empty
/// range within the input, and the tokens come in left-to-right source order
/// without overlap; between one token's end and the next one's start lies
/// only skipped whitespace or comment text.
pub proof fn lemma_lex_spans_ordered(s: Seq<u8>, i: int, toks: Seq<LocatedToken>)
    requires
        s.len() <= usize::MAX,
        0 <= i,
        lex_from(s, i) == Ok::<Seq<LocatedToken>, ErrorModel>(toks),
    ensures
        forall|k: int|
            0 <= k < toks.len() ==> i <= #[trigger] toks[k].from && (toks[k].from as int)
                < toks[k].to && toks[k].to <= s.len(),
        forall|k: int| 0 <= k < toks.len() - 1 ==> #[trigger] toks[k].to <= toks[k + 1].from,
    decreases s.len() - i, 1int,
{
    if i >= s.len() {
        // no tokens at all
    } else {
        let b = s[i];
        if is_whitespace_byte(b) {
            lemma_lex_spans_ordered(s, i + 1, toks);
        } else if b == DASH && i + 1 < s.len() && s[i + 1] == DASH {
            lemma_comment_end_props(s, i + 2);
            lemma_lex_spans_ordered(s, comment_end(s, i + 2), toks);
        } else if is_digit_byte(b) {
            lemma_digits_end_props(s, i);
            lemma_digits_end_props(s, i + 1);
            assert(digits_end(s, i) == digits_end(s, i + 1));
            let j1 = digits_end(s, i);
            if j1 < s.len() && s[j1] == POINT && j1 + 1 < s.len() && is_digit_byte(s[j1 + 1]) {
                lemma_digits_end_props(s, j1 + 1);
                let j2 = digits_end(s, j1 + 1);
                let lt = LocatedToken {
                    token: Token::Literal(
                        LiteralVariation::Real(
                            RealLiteral {
                                whole: digits_value(s, i, j1) as u64,
                                frac: digits_value(s, j1 + 1, j2) as u64,
                                frac_len: (j2 - (j1 + 1)) as usize,
                            },
                        ),
                    ),
                    from: i as usize,
                    to: j2 as usize,
                };
                lemma_spans_step(s, i, lt, j2, toks);
            } else {
                let lt = LocatedToken {
                    token: Token::Literal(LiteralVariation::Integer(digits_value(s, i, j1) as i64)),
                    from: i as usize,
                    to: j1 as usize,
                };
                lemma_spans_step(s, i, lt, j1, toks);
            }
        } else if b == QUOTE {
            lemma_string_close_props(s, i + 1);
            let q = string_close(s, i + 1);
            let lt = LocatedToken {
                token: Token::Literal(
                    LiteralVariation::String(Span { from: (i + 1) as usize, to: q as usize }),
                ),
                from: i as usize,
                to: (q + 1) as usize,
            };
            lemma_spans_step(s, i, lt, q + 1, toks);
        } else {
            match single_char_operator(b) {
                Some(op1) => {
                    let two = if i + 1 < s.len() {
                        two_char_operator(b, s[i + 1])
                    } else {
                        None
                    };
                    match two {
                        Some(op2) => {
                            let lt = LocatedToken {
                                token: Token::Operator(op2),
                                from: i as usize,
                                to: (i + 2) as usize,
                            };
                            lemma_spans_step(s, i, lt, i + 2, toks);
                        },
                        None => {
                            let lt = LocatedToken {
                                token: Token::Operator(op1),
                                from: i as usize,
                                to: (i + 1) as usize,
                            };
                            lemma_spans_step(s, i, lt, i + 1, toks);
                        },
                    }
                },
                None => {
                    lemma_letters_end_props(s, i);
                    lemma_letters_end_props(s, i + 1);
                    assert(letters_end(s, i) == letters_end(s, i + 1));
                    let j = letters_end(s, i);
                    let t = match keyword_of(s.subrange(i, j)) {
                        Some(k) => Token::Keyword(k),
                        None => Token::Identifier(Span { from: i as usize, to: j as usize }),
                    };
                    let lt = LocatedToken { token: t, from: i as usize, to: j as usize };
                    lemma_spans_step(s, i, lt, j, toks);
                },
            }
        }
    }
}

#[via_fn]
proof fn lex_from_decreases(s: Seq<u8>, i: int) {
    if 0 <= i && i < s.len() {
        if i + 2 <= s.len() {
            lemma_comment_end_props(s, i + 2);
        }
        if is_digit_byte(s[i]) {
            lemma_digits_end_props(s, i + 1);
            assert(digits_end(s, i) == digits_end(s, i + 1));
            let j1 = digits_end(s, i);
            if j1 + 1 <= s.len() {
                lemma_digits_end_props(s, j1 + 1);
            }
        }
        lemma_string_close_props(s, i + 1);
        if is_letter_byte(s[i]) {
            lemma_letters_end_props(s, i + 1);
            assert(letters_end(s, i) == letters_end(s, i + 1));
        }
    }
}

} // verus!
