use ocl::lex::{check_keyword, check_operator, is_part_of_keyword_or_identifier, lex};
use ocl::parsing_error::ParsingError;
use ocl::token::{KeywordVariation, LiteralVariation, OperatorVariation, RealLiteral, Span, Token};

/// The source text a span points at.
fn span_text<'a>(input: &'a str, sp: &Span) -> &'a str {
    &input[sp.from..sp.to]
}

#[test]
fn lex_simple_invariant() -> Result<(), ParsingError> {
    let simple_invariant = "self.numberOfEmployees > 50";

    let tokens = lex(simple_invariant.as_bytes())?;

    assert_eq!(tokens.len(), 5);
    assert!(matches!(tokens.get(0), Some(Token::Keyword(KeywordVariation::SelfReference))));
    assert!(matches!(tokens.get(1), Some(Token::Operator(OperatorVariation::Point))));
    assert!(
        matches!(tokens.get(2), Some(Token::Identifier(sp)) if span_text(simple_invariant, sp) == "numberOfEmployees")
    );
    assert!(matches!(tokens.get(3), Some(Token::Operator(OperatorVariation::GreaterThan))));
    assert!(matches!(tokens.get(4), Some(Token::Literal(LiteralVariation::Integer(50)))));
    Ok(())
}

#[test]
fn lex_invariant_with_contextual_instance() -> Result<(), ParsingError> {
    let invariant_with_context_instance = "context Company inv:
self.numberOfEmployees > 50";

    let tokens = lex(invariant_with_context_instance.as_bytes())?;

    assert_eq!(tokens.len(), 9);
    assert!(matches!(tokens.get(0), Some(Token::Keyword(KeywordVariation::Context))));
    assert!(
        matches!(tokens.get(1), Some(Token::Identifier(sp)) if span_text(invariant_with_context_instance, sp) == "Company")
    );
    assert!(matches!(tokens.get(2), Some(Token::Keyword(KeywordVariation::Inv))));
    assert!(matches!(tokens.get(3), Some(Token::Operator(OperatorVariation::Colon))));
    assert!(matches!(tokens.get(4), Some(Token::Keyword(KeywordVariation::SelfReference))));
    assert!(matches!(tokens.get(5), Some(Token::Operator(OperatorVariation::Point))));
    assert!(
        matches!(tokens.get(6), Some(Token::Identifier(sp)) if span_text(invariant_with_context_instance, sp) == "numberOfEmployees")
    );
    assert!(matches!(tokens.get(7), Some(Token::Operator(OperatorVariation::GreaterThan))));
    assert!(matches!(tokens.get(8), Some(Token::Literal(LiteralVariation::Integer(50)))));
    Ok(())
}

#[test]
fn lex_invariant_with_named_contextual_instance() -> Result<(), ParsingError> {
    let invariant_with_named_contextual_instance = "context c : Company inv:
c.numberOfEmployees > 50";

    let tokens = lex(invariant_with_named_contextual_instance.as_bytes())?;

    assert_eq!(tokens.len(), 11);
    assert!(matches!(tokens.get(0), Some(Token::Keyword(KeywordVariation::Context))));
    assert!(
        matches!(tokens.get(1), Some(Token::Identifier(sp)) if span_text(invariant_with_named_contextual_instance, sp) == "c")
    );
    assert!(matches!(tokens.get(2), Some(Token::Operator(OperatorVariation::Colon))));
    assert!(
        matches!(tokens.get(3), Some(Token::Identifier(sp)) if span_text(invariant_with_named_contextual_instance, sp) == "Company")
    );
    assert!(matches!(tokens.get(4), Some(Token::Keyword(KeywordVariation::Inv))));
    assert!(matches!(tokens.get(5), Some(Token::Operator(OperatorVariation::Colon))));
    assert!(
        matches!(tokens.get(6), Some(Token::Identifier(sp)) if span_text(invariant_with_named_contextual_instance, sp) == "c")
    );
    assert!(matches!(tokens.get(7), Some(Token::Operator(OperatorVariation::Point))));
    assert!(
        matches!(tokens.get(8), Some(Token::Identifier(sp)) if span_text(invariant_with_named_contextual_instance, sp) == "numberOfEmployees")
    );
    assert!(matches!(tokens.get(9), Some(Token::Operator(OperatorVariation::GreaterThan))));
    assert!(matches!(tokens.get(10), Some(Token::Literal(LiteralVariation::Integer(50)))));
    Ok(())
}

#[test]
fn lex_named_invariant_with_named_contextual_instance() -> Result<(), ParsingError> {
    let named_invariant = "context c : Company inv enoughEmployees:
c.numberOfEmployees > 50";

    let tokens = lex(named_invariant.as_bytes())?;

    assert_eq!(tokens.len(), 12);
    assert!(matches!(tokens.get(0), Some(Token::Keyword(KeywordVariation::Context))));
    assert!(
        matches!(tokens.get(1), Some(Token::Identifier(sp)) if span_text(named_invariant, sp) == "c")
    );
    assert!(matches!(tokens.get(2), Some(Token::Operator(OperatorVariation::Colon))));
    assert!(
        matches!(tokens.get(3), Some(Token::Identifier(sp)) if span_text(named_invariant, sp) == "Company")
    );
    assert!(matches!(tokens.get(4), Some(Token::Keyword(KeywordVariation::Inv))));
    assert!(
        matches!(tokens.get(5), Some(Token::Identifier(sp)) if span_text(named_invariant, sp) == "enoughEmployees")
    );
    assert!(matches!(tokens.get(6), Some(Token::Operator(OperatorVariation::Colon))));
    assert!(
        matches!(tokens.get(7), Some(Token::Identifier(sp)) if span_text(named_invariant, sp) == "c")
    );
    assert!(matches!(tokens.get(8), Some(Token::Operator(OperatorVariation::Point))));
    assert!(
        matches!(tokens.get(9), Some(Token::Identifier(sp)) if span_text(named_invariant, sp) == "numberOfEmployees")
    );
    assert!(matches!(tokens.get(10), Some(Token::Operator(OperatorVariation::GreaterThan))));
    assert!(matches!(tokens.get(11), Some(Token::Literal(LiteralVariation::Integer(50)))));
    Ok(())
}

#[test]
fn lex_twice_gives_identical_tokens() {
    let input = "context c : Company inv: c.x >= 10.25 -- note\n".as_bytes();
    let first = lex(input).unwrap();
    let second = lex(input).unwrap();
    assert_eq!(first, second);
}

#[test]
fn lex_integer_numeral_whole_input() {
    let tokens = lex(b"7").unwrap();
    assert_eq!(tokens, vec![Token::Literal(LiteralVariation::Integer(7))]);
    let tokens = lex(b"12345").unwrap();
    assert_eq!(tokens, vec![Token::Literal(LiteralVariation::Integer(12345))]);
    let tokens = lex(b"9223372036854775807").unwrap();
    assert_eq!(
        tokens,
        vec![Token::Literal(LiteralVariation::Integer(9223372036854775807))]
    );
}

#[test]
fn lex_real_numeral_whole_input() {
    let tokens = lex(b"12.5").unwrap();
    assert_eq!(
        tokens,
        vec![Token::Literal(LiteralVariation::Real(RealLiteral {
            whole: 12,
            frac: 5,
            frac_len: 1,
        }))]
    );
    let tokens = lex(b"0.050").unwrap();
    assert_eq!(
        tokens,
        vec![Token::Literal(LiteralVariation::Real(RealLiteral {
            whole: 0,
            frac: 50,
            frac_len: 3,
        }))]
    );
}

#[test]
fn lex_integer_out_of_range_is_an_error() {
    let err = lex(b"9223372036854775808").unwrap_err();
    assert_eq!(err.msg, "Numeric literal out of range");
    assert_eq!(err.from, 0);
    assert_eq!(err.to, 19);
}

#[test]
fn lex_numeral_with_second_point_ends_before_it() {
    // The numeral ends before a second decimal point; the point is then an
    // operator of its own and the digits after it a fresh numeral.
    let tokens = lex(b"12.3.4").unwrap();
    assert_eq!(
        tokens,
        vec![
            Token::Literal(LiteralVariation::Real(RealLiteral { whole: 12, frac: 3, frac_len: 1 })),
            Token::Operator(OperatorVariation::Point),
            Token::Literal(LiteralVariation::Integer(4)),
        ]
    );
}

#[test]
fn lex_trailing_point_is_not_part_of_the_numeral() {
    let tokens = lex(b"12.").unwrap();
    assert_eq!(
        tokens,
        vec![
            Token::Literal(LiteralVariation::Integer(12)),
            Token::Operator(OperatorVariation::Point),
        ]
    );
}

#[test]
fn lex_keywords_hit_the_table() {
    let cases: Vec<(&str, KeywordVariation)> = vec![
        ("and", KeywordVariation::And),
        ("context", KeywordVariation::Context),
        ("implies", KeywordVariation::Implies),
        ("inv", KeywordVariation::Inv),
        ("endpackage", KeywordVariation::Endpackage),
        ("self", KeywordVariation::SelfReference),
        ("xor", KeywordVariation::Xor),
        ("not", KeywordVariation::Not),
    ];
    for (word, kw) in cases {
        let tokens = lex(word.as_bytes()).unwrap();
        assert_eq!(tokens, vec![Token::Keyword(kw)], "word {word}");
    }
}

#[test]
fn lex_near_keywords_are_identifiers() {
    // Case-sensitive, exact match only: anything else is an identifier whose
    // span is the whole run.
    for word in ["Self", "selff", "An", "ANDD", "conteXt", "x"] {
        let tokens = lex(word.as_bytes()).unwrap();
        match tokens.as_slice() {
            [Token::Identifier(sp)] => {
                assert_eq!(span_text(word, sp), word);
            }
            other => panic!("expected one identifier for {word}, got {other:?}"),
        }
    }
}

#[test]
fn lex_two_char_operators_are_single_tokens() {
    let cases: Vec<(&[u8], OperatorVariation)> = vec![
        (b"->", OperatorVariation::Arrow),
        (b"..", OperatorVariation::DoublePoint),
        (b"<=", OperatorVariation::LessThanEqual),
        (b">=", OperatorVariation::GreaterThanEqual),
        (b"<>", OperatorVariation::Unequals),
        (b"::", OperatorVariation::DoubleColon),
    ];
    for (text, op) in cases {
        let tokens = lex(text).unwrap();
        assert_eq!(tokens, vec![Token::Operator(op)]);
    }
    let tokens = lex(b"a<=b").unwrap();
    assert_eq!(tokens.len(), 3);
    assert!(matches!(tokens[1], Token::Operator(OperatorVariation::LessThanEqual)));
}

#[test]
fn lex_unterminated_string_fails_to_end_of_input() {
    let err = lex(b"\"abc").unwrap_err();
    assert_eq!(err.msg, "String was not terminated. Awaited '\"'.");
    assert_eq!(err.from, 0);
    assert_eq!(err.to, 4);
}

#[test]
fn lex_string_literal_span_excludes_the_quotes() {
    let input = "x = \"hi there\"";
    let tokens = lex(input.as_bytes()).unwrap();
    assert_eq!(tokens.len(), 3);
    match &tokens[2] {
        Token::Literal(LiteralVariation::String(sp)) => {
            assert_eq!(span_text(input, sp), "hi there");
        }
        other => panic!("expected a string literal, got {other:?}"),
    }
}

#[test]
fn lex_comment_produces_no_token() {
    let tokens = lex(b"-- comment\n1").unwrap();
    assert_eq!(tokens, vec![Token::Literal(LiteralVariation::Integer(1))]);
}

#[test]
fn lex_comment_at_end_of_input() {
    let tokens = lex(b"1 -- no newline after this").unwrap();
    assert_eq!(tokens, vec![Token::Literal(LiteralVariation::Integer(1))]);
}

#[test]
fn lex_invalid_character_span_is_one_byte() {
    let err = lex(b"self.x $ 1").unwrap_err();
    assert_eq!(err.msg, "Invalid character");
    assert_eq!(err.from, 7);
    assert_eq!(err.to, 8);
}

#[test]
fn lex_empty_input_gives_no_tokens() {
    assert_eq!(lex(b"").unwrap(), vec![]);
}

#[test]
fn check_keyword_is_exact_and_case_sensitive() {
    assert_eq!(check_keyword(b"and"), Some(KeywordVariation::And));
    assert_eq!(check_keyword(b"self"), Some(KeywordVariation::SelfReference));
    assert_eq!(check_keyword(b"derive"), Some(KeywordVariation::Derive));
    assert_eq!(check_keyword(b"And"), None);
    assert_eq!(check_keyword(b"an"), None);
    assert_eq!(check_keyword(b"ands"), None);
}

#[test]
fn check_operator_covers_both_tables() {
    assert_eq!(check_operator(b"."), Some(OperatorVariation::Point));
    assert_eq!(check_operator(b"@"), Some(OperatorVariation::AtPre));
    assert_eq!(check_operator(b"->"), Some(OperatorVariation::Arrow));
    assert_eq!(check_operator(b"::"), Some(OperatorVariation::DoubleColon));
    assert_eq!(check_operator(b"ab"), None);
    assert_eq!(check_operator(b"#"), None);
    assert_eq!(check_operator(b"..."), None);
}

#[test]
fn letters_only_belong_to_identifiers() {
    assert!(is_part_of_keyword_or_identifier(b'a'));
    assert!(is_part_of_keyword_or_identifier(b'z'));
    assert!(is_part_of_keyword_or_identifier(b'A'));
    assert!(is_part_of_keyword_or_identifier(b'Z'));
    assert!(!is_part_of_keyword_or_identifier(b'0'));
    assert!(!is_part_of_keyword_or_identifier(b'_'));
    assert!(!is_part_of_keyword_or_identifier(b' '));
}
