use ocl::parse::{
    parse, AbstractSyntaxTree, AbstractSyntaxTreeNode, RValueVariant, Statement,
};
use ocl::parsing_error::ParsingError;
use ocl::token::{LiteralVariation, OperatorVariation, Span};

/// The source text a span points at.
fn text_of<'a>(input: &'a str, sp: &Span) -> &'a str {
    &input[sp.from..sp.to]
}

#[test]
fn parse_simple_invariant() -> Result<(), ParsingError> {
    let simple_invariant = "self.numberOfEmployees > 50";

    let tree: AbstractSyntaxTree = AbstractSyntaxTree::from(simple_invariant.as_bytes())?;

    let node = &*tree.root;
    assert!(matches!(node, AbstractSyntaxTreeNode::Invariant(Statement::BinaryOperation(_, _, _))));

    Ok(())
}

#[test]
fn parse_twice_gives_identical_trees() {
    let input = "context c : Company inv: c.x >= 10 and not c.closed".as_bytes();
    let first = parse(input).unwrap();
    let second = parse(input).unwrap();
    assert_eq!(first, second);
}

#[test]
fn parse_bare_expression_scenario() {
    let input = "self.numberOfEmployees > 50";
    let tree = parse(input.as_bytes()).unwrap();
    assert!(tree.context.is_none());
    match &*tree.root {
        AbstractSyntaxTreeNode::Invariant(Statement::BinaryOperation(left, op, right)) => {
            assert_eq!(*op, OperatorVariation::GreaterThan);
            match &**left {
                Statement::BinaryOperation(nav_left, nav_op, nav_right) => {
                    assert_eq!(*nav_op, OperatorVariation::Point);
                    match &**nav_left {
                        Statement::RValue(RValueVariant::Identifier(sp)) => {
                            assert_eq!(text_of(input, sp), "self");
                        }
                        other => panic!("expected the contextual instance, got {other:?}"),
                    }
                    match &**nav_right {
                        Statement::RValue(RValueVariant::Identifier(sp)) => {
                            assert_eq!(text_of(input, sp), "numberOfEmployees");
                        }
                        other => panic!("expected a member identifier, got {other:?}"),
                    }
                }
                other => panic!("expected a navigation, got {other:?}"),
            }
            match &**right {
                Statement::RValue(RValueVariant::Literal(LiteralVariation::Integer(50))) => {}
                other => panic!("expected the integer literal, got {other:?}"),
            }
        }
        other => panic!("expected an invariant comparison, got {other:?}"),
    }
}

#[test]
fn parse_context_declaration_scenario() {
    let input = "context Company inv:\nself.numberOfEmployees > 50";
    let tree = parse(input.as_bytes()).unwrap();
    let binding = tree.context.expect("a context binding");
    assert!(binding.instance.is_none());
    assert_eq!(text_of(input, &binding.context_type), "Company");
    assert!(binding.constraint_name.is_none());
    match &*tree.root {
        AbstractSyntaxTreeNode::Invariant(Statement::BinaryOperation(_, op, _)) => {
            assert_eq!(*op, OperatorVariation::GreaterThan);
        }
        other => panic!("expected an invariant comparison, got {other:?}"),
    }
}

#[test]
fn parse_named_context_declaration_scenario() {
    let input = "context c : Company inv enoughEmployees:\nc.numberOfEmployees > 50";
    let tree = parse(input.as_bytes()).unwrap();
    let binding = tree.context.expect("a context binding");
    assert_eq!(text_of(input, &binding.instance.expect("an instance name")), "c");
    assert_eq!(text_of(input, &binding.context_type), "Company");
    assert_eq!(
        text_of(input, &binding.constraint_name.expect("a constraint name")),
        "enoughEmployees"
    );
    match &*tree.root {
        AbstractSyntaxTreeNode::Invariant(Statement::BinaryOperation(left, op, _)) => {
            assert_eq!(*op, OperatorVariation::GreaterThan);
            match &**left {
                Statement::BinaryOperation(nav_left, OperatorVariation::Point, _) => {
                    match &**nav_left {
                        Statement::RValue(RValueVariant::Identifier(sp)) => {
                            assert_eq!(text_of(input, sp), "c");
                        }
                        other => panic!("expected the instance identifier, got {other:?}"),
                    }
                }
                other => panic!("expected a navigation, got {other:?}"),
            }
        }
        other => panic!("expected an invariant comparison, got {other:?}"),
    }
}

#[test]
fn parse_precedence_binds_multiplication_tighter() {
    let tree = parse(b"1 + 2 * 3").unwrap();
    match &*tree.root {
        AbstractSyntaxTreeNode::Invariant(Statement::BinaryOperation(left, op, right)) => {
            assert_eq!(*op, OperatorVariation::Plus);
            assert!(matches!(
                &**left,
                Statement::RValue(RValueVariant::Literal(LiteralVariation::Integer(1)))
            ));
            match &**right {
                Statement::BinaryOperation(m_left, m_op, m_right) => {
                    assert_eq!(*m_op, OperatorVariation::Star);
                    assert!(matches!(
                        &**m_left,
                        Statement::RValue(RValueVariant::Literal(LiteralVariation::Integer(2)))
                    ));
                    assert!(matches!(
                        &**m_right,
                        Statement::RValue(RValueVariant::Literal(LiteralVariation::Integer(3)))
                    ));
                }
                other => panic!("expected a product, got {other:?}"),
            }
        }
        other => panic!("expected a sum, got {other:?}"),
    }
}

#[test]
fn parse_binary_levels_associate_left() {
    let tree = parse(b"9 - 2 - 3").unwrap();
    match &*tree.root {
        AbstractSyntaxTreeNode::Invariant(Statement::BinaryOperation(left, op, right)) => {
            assert_eq!(*op, OperatorVariation::Minus);
            assert!(matches!(
                &**right,
                Statement::RValue(RValueVariant::Literal(LiteralVariation::Integer(3)))
            ));
            assert!(matches!(&**left, Statement::BinaryOperation(_, OperatorVariation::Minus, _)));
        }
        other => panic!("expected a difference, got {other:?}"),
    }
}

#[test]
fn parse_logical_keywords_build_operators() {
    let tree = parse(b"a and b implies c").unwrap();
    match &*tree.root {
        AbstractSyntaxTreeNode::Invariant(Statement::BinaryOperation(left, op, _)) => {
            assert_eq!(*op, OperatorVariation::Implies);
            assert!(matches!(&**left, Statement::BinaryOperation(_, OperatorVariation::And, _)));
        }
        other => panic!("expected an implication, got {other:?}"),
    }
}

#[test]
fn parse_unary_prefixes() {
    let tree = parse(b"not x").unwrap();
    match &*tree.root {
        AbstractSyntaxTreeNode::Invariant(Statement::UnaryOperation(op, inner)) => {
            assert_eq!(*op, OperatorVariation::Not);
            assert!(matches!(&**inner, Statement::RValue(RValueVariant::Identifier(_))));
        }
        other => panic!("expected a negation, got {other:?}"),
    }
    let tree = parse(b"-5").unwrap();
    match &*tree.root {
        AbstractSyntaxTreeNode::Invariant(Statement::UnaryOperation(op, inner)) => {
            assert_eq!(*op, OperatorVariation::Minus);
            assert!(matches!(
                &**inner,
                Statement::RValue(RValueVariant::Literal(LiteralVariation::Integer(5)))
            ));
        }
        other => panic!("expected an arithmetic negation, got {other:?}"),
    }
}

#[test]
fn parse_parentheses_override_precedence() {
    let tree = parse(b"(1 + 2) * 3").unwrap();
    match &*tree.root {
        AbstractSyntaxTreeNode::Invariant(Statement::BinaryOperation(left, op, _)) => {
            assert_eq!(*op, OperatorVariation::Star);
            assert!(matches!(&**left, Statement::BinaryOperation(_, OperatorVariation::Plus, _)));
        }
        other => panic!("expected a product, got {other:?}"),
    }
}

#[test]
fn parse_function_call_with_arguments() {
    let input = "f(1, x)";
    let tree = parse(input.as_bytes()).unwrap();
    match &*tree.root {
        AbstractSyntaxTreeNode::Invariant(Statement::RValue(RValueVariant::FunctionCall(
            name,
            params,
        ))) => {
            assert_eq!(text_of(input, name), "f");
            assert_eq!(params.0.len(), 2);
            assert!(matches!(
                params.0[0],
                RValueVariant::Literal(LiteralVariation::Integer(1))
            ));
            match &params.0[1] {
                RValueVariant::Identifier(sp) => assert_eq!(text_of(input, sp), "x"),
                other => panic!("expected an identifier argument, got {other:?}"),
            }
        }
        other => panic!("expected a call, got {other:?}"),
    }
}

#[test]
fn parse_call_after_navigation() {
    let input = "self.employees->size()";
    let tree = parse(input.as_bytes()).unwrap();
    match &*tree.root {
        AbstractSyntaxTreeNode::Invariant(Statement::BinaryOperation(_, op, right)) => {
            assert_eq!(*op, OperatorVariation::Arrow);
            match &**right {
                Statement::RValue(RValueVariant::FunctionCall(name, params)) => {
                    assert_eq!(text_of(input, name), "size");
                    assert!(params.0.is_empty());
                }
                other => panic!("expected a collection operation call, got {other:?}"),
            }
        }
        other => panic!("expected a navigation, got {other:?}"),
    }
}

#[test]
fn parse_stereotype_keywords_build_their_nodes() {
    let tree = parse(b"context T pre: x").unwrap();
    assert!(matches!(&*tree.root, AbstractSyntaxTreeNode::Precondition(_)));
    let tree = parse(b"context T post: x").unwrap();
    assert!(matches!(&*tree.root, AbstractSyntaxTreeNode::Postcondition(_)));
    let tree = parse(b"context T body: x").unwrap();
    assert!(matches!(&*tree.root, AbstractSyntaxTreeNode::Body(_)));
    let tree = parse(b"context T derive: x").unwrap();
    assert!(matches!(&*tree.root, AbstractSyntaxTreeNode::Derivation(_)));
    let tree = parse(b"context T init: x").unwrap();
    assert!(matches!(&*tree.root, AbstractSyntaxTreeNode::InitialValue(_)));
    let tree = parse(b"context T def: x").unwrap();
    assert!(matches!(&*tree.root, AbstractSyntaxTreeNode::Definition(_)));
}

#[test]
fn parse_empty_input_is_an_error() {
    let err = parse(b"").unwrap_err();
    assert_eq!(err.msg, "Expected an expression");
    assert_eq!(err.from, 0);
    assert_eq!(err.to, 0);
}

#[test]
fn parse_missing_operand_reports_end_of_input() {
    let err = parse(b"1 +").unwrap_err();
    assert_eq!(err.msg, "Expected an expression");
    assert_eq!(err.from, 3);
    assert_eq!(err.to, 3);
}

#[test]
fn parse_unbalanced_bracket_is_an_error() {
    let err = parse(b"(1").unwrap_err();
    assert_eq!(err.msg, "Expected a closing bracket");
    assert_eq!(err.from, 2);
    assert_eq!(err.to, 2);
}

#[test]
fn parse_trailing_token_is_an_error() {
    let err = parse(b"1 2").unwrap_err();
    assert_eq!(err.msg, "Unexpected token after the expression");
    assert_eq!(err.from, 2);
    assert_eq!(err.to, 3);
}

#[test]
fn parse_bad_context_header_is_an_error() {
    let err = parse(b"context inv: 1").unwrap_err();
    assert_eq!(err.msg, "Expected a type name after the context keyword");
    assert_eq!(err.from, 8);
    assert_eq!(err.to, 11);
}

#[test]
fn parse_missing_stereotype_is_an_error() {
    let err = parse(b"context Company x: 1").unwrap_err();
    assert_eq!(err.msg, "Expected a stereotype keyword");
}

#[test]
fn parse_missing_colon_is_an_error() {
    let err = parse(b"context Company inv x y").unwrap_err();
    assert_eq!(err.msg, "Expected a colon before the constraint expression");
}

#[test]
fn parse_bad_navigation_member_is_an_error() {
    let err = parse(b"self.1").unwrap_err();
    assert_eq!(err.msg, "Expected an identifier after the navigation operator");
    assert_eq!(err.from, 5);
    assert_eq!(err.to, 6);
}

#[test]
fn parse_compound_argument_is_an_error() {
    let err = parse(b"f(1 + 2)").unwrap_err();
    assert_eq!(err.msg, "Function arguments must be plain values");
}

#[test]
fn parse_propagates_lexical_errors_unchanged() {
    let err = parse(b"self.x $ 1").unwrap_err();
    assert_eq!(err.msg, "Invalid character");
    assert_eq!(err.from, 7);
    assert_eq!(err.to, 8);
}
