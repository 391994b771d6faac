//! The parser: an operator-precedence recursive descent over the token
//! stream, producing the abstract syntax tree of one constraint.
//!
//! The grammar, from loosest to tightest binding: `implies`; `or` and `xor`;
//! `and`; equality `=` and `<>`; relational `<`, `>`, `<=`, `>=`; additive
//! `+` and `-`; multiplicative `*` and `/`; the unary prefixes `not` and `-`;
//! navigation `.`, `->` and `::`; and finally a primary, which is a literal,
//! an identifier, a function call, the keyword for the contextual instance,
//! or a parenthesized expression.  Every binary level associates to the left.
//!
//! A whole unit is either a bare expression, read as an invariant, or a
//! context declaration: the context keyword, a bare type name or a named
//! instance followed by a colon and the type name, a stereotype keyword with
//! an optional constraint name, a colon, and the constraint expression.

use vstd::prelude::*;

use crate::lex::lex_from;
use crate::lex::lex_located;
use crate::parsing_error::ErrorModel;
use crate::parsing_error::ParsingError;
use crate::token::KeywordVariation;
use crate::token::LiteralVariation;
use crate::token::LocatedToken;
use crate::token::OperatorVariation;
use crate::token::Span;
use crate::token::Token;

verus! {

// --- the syntax tree ---

/// The parsed unit: the context it is declared against, if any, and the one
/// constraint node.  The tree exclusively owns its nodes and is immutable
/// once built.
#[derive(Debug, PartialEq, Eq)]
pub struct AbstractSyntaxTree {
    pub context: Option<ContextBinding>,
    pub root: Box<AbstractSyntaxTreeNode>,
}

/// What a context declaration binds: an optional instance name, the type
/// name, and an optional name for the constraint itself.
#[derive(Clone, Copy, Debug, PartialEq, Eq, Structural)]
pub struct ContextBinding {
    pub instance: Option<Span>,
    pub context_type: Span,
    pub constraint_name: Option<Span>,
}

/// The stereotype of the parsed constraint, each wrapping its expression.
#[derive(Debug, PartialEq, Eq)]
pub enum AbstractSyntaxTreeNode {
    /// An `inv` constraint, and the reading of a bare expression.
    Invariant(Statement),
    /// A `pre` constraint.
    Precondition(Statement),
    /// A `post` constraint.
    Postcondition(Statement),
    /// A `body` constraint.
    Body(Statement),
    /// A `derive` constraint.
    Derivation(Statement),
    /// An `init` constraint.
    InitialValue(Statement),
    /// A `def` constraint.
    Definition(Statement),
}

/// An expression node.
#[derive(Debug, PartialEq, Eq)]
pub enum Statement {
    UnaryOperation(OperatorVariation, Box<Statement>),
    BinaryOperation(Box<Statement>, OperatorVariation, Box<Statement>),
    RValue(RValueVariant),
}

/// A leaf or call expression.
#[derive(Debug, PartialEq, Eq)]
pub enum RValueVariant {
    Literal(LiteralVariation),
    Identifier(Span),
    /// A call: the called name and its arguments.
    FunctionCall(Span, ParameterList),
}

/// The ordered, positional arguments of one call.
#[derive(Debug, PartialEq, Eq)]
pub struct ParameterList(pub Vec<RValueVariant>);

// --- the mathematical model of the syntax tree ---

/// The mathematical value of a [`Statement`].
pub enum StatementModel {
    Unary(OperatorVariation, Box<StatementModel>),
    Binary(Box<StatementModel>, OperatorVariation, Box<StatementModel>),
    RValue(RValueModel),
}

/// The mathematical value of an [`RValueVariant`], with call arguments as a
/// sequence.
pub enum RValueModel {
    Literal(LiteralVariation),
    Identifier(Span),
    FunctionCall(Span, Seq<RValueModel>),
}

/// The mathematical value of an [`AbstractSyntaxTreeNode`].
pub enum NodeModel {
    Invariant(StatementModel),
    Precondition(StatementModel),
    Postcondition(StatementModel),
    Body(StatementModel),
    Derivation(StatementModel),
    InitialValue(StatementModel),
    Definition(StatementModel),
}

/// The mathematical value of an [`AbstractSyntaxTree`].
pub struct TreeModel {
    pub context: Option<ContextBinding>,
    pub root: NodeModel,
}

/// The model of a leaf or call expression.
pub open spec fn rvalue_model(rv: RValueVariant) -> RValueModel
    decreases rv,
{
    match rv {
        RValueVariant::Literal(l) => RValueModel::Literal(l),
        RValueVariant::Identifier(sp) => RValueModel::Identifier(sp),
        RValueVariant::FunctionCall(name, pl) => RValueModel::FunctionCall(
            name,
            paramlist_model(pl),
        ),
    }
}

/// The model of a parameter list.
pub open spec fn paramlist_model(pl: ParameterList) -> Seq<RValueModel>
    decreases pl,
{
    paramvec_model(pl.0)
}

/// The model of a vector of arguments.
pub open spec fn paramvec_model(v: Vec<RValueVariant>) -> Seq<RValueModel>
    decreases v,
{
    params_model(v@)
}

/// The model of a sequence of arguments: each argument's model, in order.
pub open spec fn params_model(elems: Seq<RValueVariant>) -> Seq<RValueModel>
    decreases elems,
{
    if elems.len() == 0 {
        Seq::empty()
    } else {
        seq![rvalue_model(elems[0])] + params_model(elems.subrange(1, elems.len() as int))
    }
}

/// The model of an expression node.
pub open spec fn statement_model(s: Statement) -> StatementModel
    decreases s,
{
    match s {
        Statement::UnaryOperation(op, inner) => StatementModel::Unary(
            op,
            Box::new(statement_model(*inner)),
        ),
        Statement::BinaryOperation(l, op, r) => StatementModel::Binary(
            Box::new(statement_model(*l)),
            op,
            Box::new(statement_model(*r)),
        ),
        Statement::RValue(rv) => StatementModel::RValue(rvalue_model(rv)),
    }
}

/// The model of a constraint node.
pub open spec fn node_model(n: AbstractSyntaxTreeNode) -> NodeModel {
    match n {
        AbstractSyntaxTreeNode::Invariant(s) => NodeModel::Invariant(statement_model(s)),
        AbstractSyntaxTreeNode::Precondition(s) => NodeModel::Precondition(statement_model(s)),
        AbstractSyntaxTreeNode::Postcondition(s) => NodeModel::Postcondition(statement_model(s)),
        AbstractSyntaxTreeNode::Body(s) => NodeModel::Body(statement_model(s)),
        AbstractSyntaxTreeNode::Derivation(s) => NodeModel::Derivation(statement_model(s)),
        AbstractSyntaxTreeNode::InitialValue(s) => NodeModel::InitialValue(statement_model(s)),
        AbstractSyntaxTreeNode::Definition(s) => NodeModel::Definition(statement_model(s)),
    }
}

/// The model of a whole parsed unit.
pub open spec fn tree_model(t: AbstractSyntaxTree) -> TreeModel {
    TreeModel { context: t.context, root: node_model(*t.root) }
}

// --- the grammar, as a mathematical function over the token stream ---

/// The error that reports `msg` against the token at `pos`, or against the
/// empty range at end of input when the stream is exhausted; `sl` is the
/// source length in bytes.
pub open spec fn parse_error(msg: Seq<char>, t: Seq<LocatedToken>, pos: int, sl: int) -> ErrorModel {
    if 0 <= pos < t.len() {
        ErrorModel { msg, from: t[pos].from as int, to: t[pos].to as int }
    } else {
        ErrorModel { msg, from: sl, to: sl }
    }
}

/// The larger of two positions.
pub open spec fn at_least(p: int, q: int) -> int {
    if p >= q {
        p
    } else {
        q
    }
}

/// The binary operator that continues an expression of binding level `lvl`,
/// if `tok` is one.  Levels, loosest first: 7 `implies`; 6 `or`, `xor`;
/// 5 `and`; 4 `=`, `<>`; 3 `<`, `>`, `<=`, `>=`; 2 `+`, `-`; 1 `*`, `/`.
pub open spec fn level_operator(lvl: int, tok: Token) -> Option<OperatorVariation> {
    if lvl == 7 {
        match tok {
            Token::Keyword(KeywordVariation::Implies) => Some(OperatorVariation::Implies),
            _ => None,
        }
    } else if lvl == 6 {
        match tok {
            Token::Keyword(KeywordVariation::Or) => Some(OperatorVariation::Or),
            Token::Keyword(KeywordVariation::Xor) => Some(OperatorVariation::Xor),
            _ => None,
        }
    } else if lvl == 5 {
        match tok {
            Token::Keyword(KeywordVariation::And) => Some(OperatorVariation::And),
            _ => None,
        }
    } else if lvl == 4 {
        match tok {
            Token::Operator(OperatorVariation::Equals) => Some(OperatorVariation::Equals),
            Token::Operator(OperatorVariation::Unequals) => Some(OperatorVariation::Unequals),
            _ => None,
        }
    } else if lvl == 3 {
        match tok {
            Token::Operator(OperatorVariation::LessThan) => Some(OperatorVariation::LessThan),
            Token::Operator(OperatorVariation::GreaterThan) => Some(
                OperatorVariation::GreaterThan,
            ),
            Token::Operator(OperatorVariation::LessThanEqual) => Some(
                OperatorVariation::LessThanEqual,
            ),
            Token::Operator(OperatorVariation::GreaterThanEqual) => Some(
                OperatorVariation::GreaterThanEqual,
            ),
            _ => None,
        }
    } else if lvl == 2 {
        match tok {
            Token::Operator(OperatorVariation::Plus) => Some(OperatorVariation::Plus),
            Token::Operator(OperatorVariation::Minus) => Some(OperatorVariation::Minus),
            _ => None,
        }
    } else if lvl == 1 {
        match tok {
            Token::Operator(OperatorVariation::Star) => Some(OperatorVariation::Star),
            Token::Operator(OperatorVariation::Slash) => Some(OperatorVariation::Slash),
            _ => None,
        }
    } else {
        None
    }
}

/// The navigation operator `tok` stands for, if it is one of `.`, `->`, `::`.
pub open spec fn navigation_operator(tok: Token) -> Option<OperatorVariation> {
    match tok {
        Token::Operator(OperatorVariation::Point) => Some(OperatorVariation::Point),
        Token::Operator(OperatorVariation::Arrow) => Some(OperatorVariation::Arrow),
        Token::Operator(OperatorVariation::DoubleColon) => Some(OperatorVariation::DoubleColon),
        _ => None,
    }
}

/// A primary: a literal, the contextual-instance keyword, an identifier or a
/// call of one, or a parenthesized expression.
pub open spec fn primary_expr(t: Seq<LocatedToken>, sl: int, pos: int) -> Result<
    (StatementModel, int),
    ErrorModel,
>
    decreases at_least(t.len() - pos, 0), 5int,
{
    if !(0 <= pos < t.len()) {
        Err(parse_error("Expected an expression"@, t, pos, sl))
    } else {
        match t[pos].token {
            Token::Literal(l) => Ok((StatementModel::RValue(RValueModel::Literal(l)), pos + 1)),
            Token::Keyword(KeywordVariation::SelfReference) => Ok(
                (
                    StatementModel::RValue(
                        RValueModel::Identifier(Span { from: t[pos].from, to: t[pos].to }),
                    ),
                    pos + 1,
                ),
            ),
            Token::Identifier(sp) => {
                if pos + 1 < t.len() && t[pos + 1].token == Token::Operator(
                    OperatorVariation::OpeningRoundBracket,
                ) {
                    match call_args(t, sl, pos + 2) {
                        Ok((args, q)) => Ok(
                            (StatementModel::RValue(RValueModel::FunctionCall(sp, args)), q),
                        ),
                        Err(e) => Err(e),
                    }
                } else {
                    Ok((StatementModel::RValue(RValueModel::Identifier(sp)), pos + 1))
                }
            },
            Token::Operator(OperatorVariation::OpeningRoundBracket) => {
                match level_expr(t, sl, pos + 1, 7) {
                    Ok((inner, p)) => {
                        if 0 <= p < t.len() && t[p].token == Token::Operator(
                            OperatorVariation::ClosingRoundBracket,
                        ) {
                            Ok((inner, p + 1))
                        } else {
                            Err(parse_error("Expected a closing bracket"@, t, p, sl))
                        }
                    },
                    Err(e) => Err(e),
                }
            },
            _ => Err(parse_error("Expected an expression"@, t, pos, sl)),
        }
    }
}

/// The comma-separated, possibly empty argument list of a call, scanned from
/// right after the opening bracket up to and past the closing one.  Each
/// argument is an expression that must be a plain value (a literal, an
/// identifier or a call), as the parameter-list shape requires.
pub open spec fn call_args(t: Seq<LocatedToken>, sl: int, pos: int) -> Result<
    (Seq<RValueModel>, int),
    ErrorModel,
>
    decreases at_least(t.len() - pos, 0), 30int,
{
    if !(0 <= pos < t.len()) {
        Err(parse_error("Expected a closing bracket"@, t, pos, sl))
    } else if t[pos].token == Token::Operator(OperatorVariation::ClosingRoundBracket) {
        Ok((Seq::empty(), pos + 1))
    } else {
        match level_expr(t, sl, pos, 7) {
            Ok((stmt, p)) => match stmt {
                StatementModel::RValue(rv) => {
                    if 0 <= p < t.len() && t[p].token == Token::Operator(OperatorVariation::Comma) {
                        match call_args(t, sl, at_least(p, pos) + 1) {
                            Ok((rest, q)) => Ok((seq![rv] + rest, q)),
                            Err(e) => Err(e),
                        }
                    } else if 0 <= p < t.len() && t[p].token == Token::Operator(
                        OperatorVariation::ClosingRoundBracket,
                    ) {
                        Ok((seq![rv], p + 1))
                    } else {
                        Err(parse_error("Expected a comma or a closing bracket"@, t, p, sl))
                    }
                },
                _ => Err(parse_error("Function arguments must be plain values"@, t, pos, sl)),
            },
            Err(e) => Err(e),
        }
    }
}

/// The member after a navigation operator: an identifier or a call of one.
pub open spec fn member_expr(t: Seq<LocatedToken>, sl: int, pos: int) -> Result<
    (RValueModel, int),
    ErrorModel,
>
    decreases at_least(t.len() - pos, 0), 6int,
{
    if !(0 <= pos < t.len()) {
        Err(parse_error("Expected an identifier after the navigation operator"@, t, pos, sl))
    } else {
        match t[pos].token {
            Token::Identifier(sp) => {
                if pos + 1 < t.len() && t[pos + 1].token == Token::Operator(
                    OperatorVariation::OpeningRoundBracket,
                ) {
                    match call_args(t, sl, pos + 2) {
                        Ok((args, q)) => Ok((RValueModel::FunctionCall(sp, args), q)),
                        Err(e) => Err(e),
                    }
                } else {
                    Ok((RValueModel::Identifier(sp), pos + 1))
                }
            },
            _ => Err(
                parse_error("Expected an identifier after the navigation operator"@, t, pos, sl),
            ),
        }
    }
}

/// What follows a parsed navigation target: any run of `.`, `->` or `::`
/// steps, folded to the left.
pub open spec fn nav_expr_more(
    t: Seq<LocatedToken>,
    sl: int,
    pos: int,
    acc: StatementModel,
) -> Result<(StatementModel, int), ErrorModel>
    decreases at_least(t.len() - pos, 0), 7int,
{
    if 0 <= pos < t.len() && navigation_operator(t[pos].token) is Some {
        let op = navigation_operator(t[pos].token)->Some_0;
        match member_expr(t, sl, pos + 1) {
            Ok((rv, q)) => nav_expr_more(
                t,
                sl,
                at_least(q, pos + 1),
                StatementModel::Binary(Box::new(acc), op, Box::new(StatementModel::RValue(rv))),
            ),
            Err(e) => Err(e),
        }
    } else {
        Ok((acc, pos))
    }
}

/// A navigation chain: a primary followed by member steps, binding tightest.
pub open spec fn nav_expr(t: Seq<LocatedToken>, sl: int, pos: int) -> Result<
    (StatementModel, int),
    ErrorModel,
>
    decreases at_least(t.len() - pos, 0), 8int,
{
    match primary_expr(t, sl, pos) {
        Ok((first, p)) => nav_expr_more(t, sl, at_least(p, pos), first),
        Err(e) => Err(e),
    }
}

/// A unary-prefix expression: any run of `not` and unary `-` before a
/// navigation chain.
pub open spec fn unary_expr(t: Seq<LocatedToken>, sl: int, pos: int) -> Result<
    (StatementModel, int),
    ErrorModel,
>
    decreases at_least(t.len() - pos, 0), 9int,
{
    if 0 <= pos < t.len() && t[pos].token == Token::Keyword(KeywordVariation::Not) {
        match unary_expr(t, sl, pos + 1) {
            Ok((inner, p)) => Ok(
                (StatementModel::Unary(OperatorVariation::Not, Box::new(inner)), p),
            ),
            Err(e) => Err(e),
        }
    } else if 0 <= pos < t.len() && t[pos].token == Token::Operator(OperatorVariation::Minus) {
        match unary_expr(t, sl, pos + 1) {
            Ok((inner, p)) => Ok(
                (StatementModel::Unary(OperatorVariation::Minus, Box::new(inner)), p),
            ),
            Err(e) => Err(e),
        }
    } else {
        nav_expr(t, sl, pos)
    }
}

/// A binary expression of binding level `lvl`: the next-tighter level on both
/// sides of each operator of this level, folded to the left.  Level 7 is a
/// whole expression.
pub open spec fn level_expr(t: Seq<LocatedToken>, sl: int, pos: int, lvl: int) -> Result<
    (StatementModel, int),
    ErrorModel,
>
    decreases at_least(t.len() - pos, 0), 11 + 2 * at_least(lvl, 1),
{
    let below = if lvl <= 1 {
        unary_expr(t, sl, pos)
    } else {
        level_expr(t, sl, pos, lvl - 1)
    };
    match below {
        Ok((first, p)) => level_expr_more(t, sl, at_least(p, pos), lvl, first),
        Err(e) => Err(e),
    }
}

/// What follows a parsed left operand at level `lvl`: any run of this level's
/// operators, folded to the left.
pub open spec fn level_expr_more(
    t: Seq<LocatedToken>,
    sl: int,
    pos: int,
    lvl: int,
    acc: StatementModel,
) -> Result<(StatementModel, int), ErrorModel>
    decreases at_least(t.len() - pos, 0), 10 + 2 * at_least(lvl, 1),
{
    if 0 <= pos < t.len() && level_operator(lvl, t[pos].token) is Some {
        let op = level_operator(lvl, t[pos].token)->Some_0;
        let below = if lvl <= 1 {
            unary_expr(t, sl, pos + 1)
        } else {
            level_expr(t, sl, pos + 1, lvl - 1)
        };
        match below {
            Ok((rhs, p)) => level_expr_more(
                t,
                sl,
                at_least(p, pos + 1),
                lvl,
                StatementModel::Binary(Box::new(acc), op, Box::new(rhs)),
            ),
            Err(e) => Err(e),
        }
    } else {
        Ok((acc, pos))
    }
}

/// Whether `k` names a constraint stereotype.
pub open spec fn is_stereotype_keyword(k: KeywordVariation) -> bool {
    match k {
        KeywordVariation::Inv => true,
        KeywordVariation::Pre => true,
        KeywordVariation::Post => true,
        KeywordVariation::Body => true,
        KeywordVariation::Derive => true,
        KeywordVariation::Init => true,
        KeywordVariation::Def => true,
        _ => false,
    }
}

/// The node a stereotype keyword wraps its expression in.  For a keyword that
/// is no stereotype the choice is immaterial: every use is guarded by
/// [`is_stereotype_keyword`].
pub open spec fn stereotype_node(k: KeywordVariation, body: StatementModel) -> NodeModel {
    match k {
        KeywordVariation::Pre => NodeModel::Precondition(body),
        KeywordVariation::Post => NodeModel::Postcondition(body),
        KeywordVariation::Body => NodeModel::Body(body),
        KeywordVariation::Derive => NodeModel::Derivation(body),
        KeywordVariation::Init => NodeModel::InitialValue(body),
        KeywordVariation::Def => NodeModel::Definition(body),
        _ => NodeModel::Invariant(body),
    }
}

/// After the context keyword: the optional instance name, the type name, and
/// the position that follows the header.
pub open spec fn context_header(t: Seq<LocatedToken>, sl: int) -> Result<
    (Option<Span>, Span, int),
    ErrorModel,
> {
    if 1 < t.len() {
        match t[1].token {
            Token::Identifier(sp1) => {
                if 2 < t.len() && t[2].token == Token::Operator(OperatorVariation::Colon) {
                    if 3 < t.len() {
                        match t[3].token {
                            Token::Identifier(sp2) => Ok((Some(sp1), sp2, 4)),
                            _ => Err(
                                parse_error(
                                    "Expected a type name after the context keyword"@,
                                    t,
                                    3,
                                    sl,
                                ),
                            ),
                        }
                    } else {
                        Err(parse_error("Expected a type name after the context keyword"@, t, 3, sl))
                    }
                } else {
                    Ok((None, sp1, 2))
                }
            },
            _ => Err(parse_error("Expected a type name after the context keyword"@, t, 1, sl)),
        }
    } else {
        Err(parse_error("Expected a type name after the context keyword"@, t, 1, sl))
    }
}

/// One whole unit over the token stream: either a context declaration whose
/// constraint expression runs to the end of the stream, or a bare expression
/// over the whole stream, read as an invariant of an unnamed context.
pub open spec fn unit_decl(t: Seq<LocatedToken>, sl: int) -> Result<TreeModel, ErrorModel> {
    if t.len() == 0 {
        Err(parse_error("Expected an expression"@, t, 0, sl))
    } else if t[0].token == Token::Keyword(KeywordVariation::Context) {
        match context_header(t, sl) {
            Ok((inst, ctype, spos)) => {
                if !(spos < t.len()) {
                    Err(parse_error("Expected a stereotype keyword"@, t, spos, sl))
                } else {
                    match t[spos].token {
                        Token::Keyword(k) => {
                            if is_stereotype_keyword(k) {
                                let cname = if spos + 1 < t.len() {
                                    match t[spos + 1].token {
                                        Token::Identifier(sp) => Some(sp),
                                        _ => None,
                                    }
                                } else {
                                    None
                                };
                                let colonpos = if cname is Some {
                                    spos + 2
                                } else {
                                    spos + 1
                                };
                                if colonpos < t.len() && t[colonpos].token == Token::Operator(
                                    OperatorVariation::Colon,
                                ) {
                                    match level_expr(t, sl, colonpos + 1, 7) {
                                        Ok((body, p)) => {
                                            if p == t.len() {
                                                Ok(
                                                    TreeModel {
                                                        context: Some(
                                                            ContextBinding {
                                                                instance: inst,
                                                                context_type: ctype,
                                                                constraint_name: cname,
                                                            },
                                                        ),
                                                        root: stereotype_node(k, body),
                                                    },
                                                )
                                            } else {
                                                Err(
                                                    parse_error(
                                                        "Unexpected token after the expression"@,
                                                        t,
                                                        p,
                                                        sl,
                                                    ),
                                                )
                                            }
                                        },
                                        Err(e) => Err(e),
                                    }
                                } else {
                                    Err(
                                        parse_error(
                                            "Expected a colon before the constraint expression"@,
                                            t,
                                            colonpos,
                                            sl,
                                        ),
                                    )
                                }
                            } else {
                                Err(parse_error("Expected a stereotype keyword"@, t, spos, sl))
                            }
                        },
                        _ => Err(parse_error("Expected a stereotype keyword"@, t, spos, sl)),
                    }
                }
            },
            Err(e) => Err(e),
        }
    } else {
        match level_expr(t, sl, 0, 7) {
            Ok((body, p)) => {
                if p == t.len() {
                    Ok(TreeModel { context: None, root: NodeModel::Invariant(body) })
                } else {
                    Err(parse_error("Unexpected token after the expression"@, t, p, sl))
                }
            },
            Err(e) => Err(e),
        }
    }
}

/// The whole front end as one function: scan the source, then parse the
/// token stream, failing with the first error of either stage.
pub open spec fn parse_source(s: Seq<u8>) -> Result<TreeModel, ErrorModel> {
    match lex_from(s, 0) {
        Ok(toks) => unit_decl(toks, s.len() as int),
        Err(e) => Err(e),
    }
}

// --- the executable parser ---

/// Builds the error that [`parse_error`] describes for position `pos`.
fn err_at(msg: &str, t: &Vec<LocatedToken>, pos: usize, sl: usize) -> (e: ParsingError)
    ensures
        e@ == parse_error(msg@, t@, pos as int, sl as int),
{
    if pos < t.len() {
        ParsingError::new(msg, t[pos].from, t[pos].to)
    } else {
        ParsingError::new(msg, sl, sl)
    }
}

fn level_operator_exec(lvl: u8, tok: Token) -> (r: Option<OperatorVariation>)
    ensures
        r == level_operator(lvl as int, tok),
{
    if lvl == 7 {
        match tok {
            Token::Keyword(KeywordVariation::Implies) => Some(OperatorVariation::Implies),
            _ => None,
        }
    } else if lvl == 6 {
        match tok {
            Token::Keyword(KeywordVariation::Or) => Some(OperatorVariation::Or),
            Token::Keyword(KeywordVariation::Xor) => Some(OperatorVariation::Xor),
            _ => None,
        }
    } else if lvl == 5 {
        match tok {
            Token::Keyword(KeywordVariation::And) => Some(OperatorVariation::And),
            _ => None,
        }
    } else if lvl == 4 {
        match tok {
            Token::Operator(OperatorVariation::Equals) => Some(OperatorVariation::Equals),
            Token::Operator(OperatorVariation::Unequals) => Some(OperatorVariation::Unequals),
            _ => None,
        }
    } else if lvl == 3 {
        match tok {
            Token::Operator(OperatorVariation::LessThan) => Some(OperatorVariation::LessThan),
            Token::Operator(OperatorVariation::GreaterThan) => Some(
                OperatorVariation::GreaterThan,
            ),
            Token::Operator(OperatorVariation::LessThanEqual) => Some(
                OperatorVariation::LessThanEqual,
            ),
            Token::Operator(OperatorVariation::GreaterThanEqual) => Some(
                OperatorVariation::GreaterThanEqual,
            ),
            _ => None,
        }
    } else if lvl == 2 {
        match tok {
            Token::Operator(OperatorVariation::Plus) => Some(OperatorVariation::Plus),
            Token::Operator(OperatorVariation::Minus) => Some(OperatorVariation::Minus),
            _ => None,
        }
    } else if lvl == 1 {
        match tok {
            Token::Operator(OperatorVariation::Star) => Some(OperatorVariation::Star),
            Token::Operator(OperatorVariation::Slash) => Some(OperatorVariation::Slash),
            _ => None,
        }
    } else {
        None
    }
}

fn navigation_operator_exec(tok: Token) -> (r: Option<OperatorVariation>)
    ensures
        r == navigation_operator(tok),
{
    match tok {
        Token::Operator(OperatorVariation::Point) => Some(OperatorVariation::Point),
        Token::Operator(OperatorVariation::Arrow) => Some(OperatorVariation::Arrow),
        Token::Operator(OperatorVariation::DoubleColon) => Some(OperatorVariation::DoubleColon),
        _ => None,
    }
}

fn is_stereotype_keyword_exec(k: KeywordVariation) -> (r: bool)
    ensures
        r == is_stereotype_keyword(k),
{
    match k {
        KeywordVariation::Inv => true,
        KeywordVariation::Pre => true,
        KeywordVariation::Post => true,
        KeywordVariation::Body => true,
        KeywordVariation::Derive => true,
        KeywordVariation::Init => true,
        KeywordVariation::Def => true,
        _ => false,
    }
}

fn make_node(k: KeywordVariation, body: Statement) -> (n: AbstractSyntaxTreeNode)
    ensures
        node_model(n) == stereotype_node(k, statement_model(body)),
{
    match k {
        KeywordVariation::Pre => AbstractSyntaxTreeNode::Precondition(body),
        KeywordVariation::Post => AbstractSyntaxTreeNode::Postcondition(body),
        KeywordVariation::Body => AbstractSyntaxTreeNode::Body(body),
        KeywordVariation::Derive => AbstractSyntaxTreeNode::Derivation(body),
        KeywordVariation::Init => AbstractSyntaxTreeNode::InitialValue(body),
        KeywordVariation::Def => AbstractSyntaxTreeNode::Definition(body),
        _ => AbstractSyntaxTreeNode::Invariant(body),
    }
}

/// Parses one primary, following [`primary_expr`] exactly.
fn parse_primary(t: &Vec<LocatedToken>, sl: usize, pos: usize) -> (r: Result<
    (Statement, usize),
    ParsingError,
>)
    requires
        pos <= t@.len(),
    ensures
        (r is Ok) == (primary_expr(t@, sl as int, pos as int) is Ok),
        r is Ok ==> statement_model(r->Ok_0.0) == primary_expr(t@, sl as int, pos as int)->Ok_0.0
            && r->Ok_0.1 as int == primary_expr(t@, sl as int, pos as int)->Ok_0.1 && pos < r
            ->Ok_0.1 <= t@.len(),
        r is Err ==> r->Err_0@ == primary_expr(t@, sl as int, pos as int)->Err_0,
    decreases t@.len() - pos, 5int,
{
    if pos >= t.len() {
        return Err(err_at("Expected an expression", t, pos, sl));
    }
    match t[pos].token {
        Token::Literal(l) => Ok((Statement::RValue(RValueVariant::Literal(l)), pos + 1)),
        Token::Keyword(KeywordVariation::SelfReference) => Ok(
            (
                Statement::RValue(
                    RValueVariant::Identifier(Span { from: t[pos].from, to: t[pos].to }),
                ),
                pos + 1,
            ),
        ),
        Token::Identifier(sp) => {
            if pos + 1 < t.len() && t[pos + 1].token == Token::Operator(
                OperatorVariation::OpeningRoundBracket,
            ) {
                match parse_call_args(t, sl, pos + 2) {
                    Ok((args, q)) => Ok(
                        (
                            Statement::RValue(
                                RValueVariant::FunctionCall(sp, ParameterList(args)),
                            ),
                            q,
                        ),
                    ),
                    Err(e) => Err(e),
                }
            } else {
                Ok((Statement::RValue(RValueVariant::Identifier(sp)), pos + 1))
            }
        },
        Token::Operator(OperatorVariation::OpeningRoundBracket) => {
            match parse_level(t, sl, pos + 1, 7) {
                Ok((inner, p)) => {
                    if p < t.len() && t[p].token == Token::Operator(
                        OperatorVariation::ClosingRoundBracket,
                    ) {
                        Ok((inner, p + 1))
                    } else {
                        Err(err_at("Expected a closing bracket", t, p, sl))
                    }
                },
                Err(e) => Err(e),
            }
        },
        _ => Err(err_at("Expected an expression", t, pos, sl)),
    }
}

/// Parses a call's argument list, following [`call_args`] exactly.
fn parse_call_args(t: &Vec<LocatedToken>, sl: usize, pos: usize) -> (r: Result<
    (Vec<RValueVariant>, usize),
    ParsingError,
>)
    requires
        pos <= t@.len(),
    ensures
        (r is Ok) == (call_args(t@, sl as int, pos as int) is Ok),
        r is Ok ==> params_model(r->Ok_0.0@) == call_args(t@, sl as int, pos as int)->Ok_0.0 && r
            ->Ok_0.1 as int == call_args(t@, sl as int, pos as int)->Ok_0.1 && pos < r->Ok_0.1
            <= t@.len(),
        r is Err ==> r->Err_0@ == call_args(t@, sl as int, pos as int)->Err_0,
    decreases t@.len() - pos, 30int,
{
    if pos >= t.len() {
        return Err(err_at("Expected a closing bracket", t, pos, sl));
    }
    if t[pos].token == Token::Operator(OperatorVariation::ClosingRoundBracket) {
        let v: Vec<RValueVariant> = Vec::new();
        proof {
            assert(v@ =~= Seq::<RValueVariant>::empty());
            assert(params_model(v@) =~= Seq::<RValueModel>::empty());
        }
        return Ok((v, pos + 1));
    }
    match parse_level(t, sl, pos, 7) {
        Ok((stmt, p)) => {
            match stmt {
                Statement::RValue(rv) => {
                    if p < t.len() && t[p].token == Token::Operator(OperatorVariation::Comma) {
                        proof {
                            assert(at_least(p as int, pos as int) == p as int);
                        }
                        match parse_call_args(t, sl, p + 1) {
                            Ok((mut rest, q)) => {
                                let ghost rest0 = rest@;
                                rest.insert(0, rv);
                                proof {
                                    assert(rest@ =~= seq![rv] + rest0);
                                    assert(rest@.subrange(1, rest@.len() as int) =~= rest0);
                                    assert(params_model(rest@) =~= seq![rvalue_model(rv)]
                                        + params_model(rest0));
                                }
                                Ok((rest, q))
                            },
                            Err(e) => Err(e),
                        }
                    } else if p < t.len() && t[p].token == Token::Operator(
                        OperatorVariation::ClosingRoundBracket,
                    ) {
                        let mut v: Vec<RValueVariant> = Vec::new();
                        v.push(rv);
                        proof {
                            assert(v@ =~= seq![rv]);
                            assert(v@[0] == rv);
                            assert(v@.subrange(1, 1) =~= Seq::<RValueVariant>::empty());
                            assert(params_model(Seq::<RValueVariant>::empty())
                                =~= Seq::<RValueModel>::empty());
                            assert(params_model(v@) =~= seq![rvalue_model(rv)]);
                        }
                        Ok((v, p + 1))
                    } else {
                        Err(err_at("Expected a comma or a closing bracket", t, p, sl))
                    }
                },
                _ => Err(err_at("Function arguments must be plain values", t, pos, sl)),
            }
        },
        Err(e) => Err(e),
    }
}

/// Parses the member after a navigation operator, following [`member_expr`].
fn parse_member(t: &Vec<LocatedToken>, sl: usize, pos: usize) -> (r: Result<
    (RValueVariant, usize),
    ParsingError,
>)
    requires
        pos <= t@.len(),
    ensures
        (r is Ok) == (member_expr(t@, sl as int, pos as int) is Ok),
        r is Ok ==> rvalue_model(r->Ok_0.0) == member_expr(t@, sl as int, pos as int)->Ok_0.0 && r
            ->Ok_0.1 as int == member_expr(t@, sl as int, pos as int)->Ok_0.1 && pos < r->Ok_0.1
            <= t@.len(),
        r is Err ==> r->Err_0@ == member_expr(t@, sl as int, pos as int)->Err_0,
    decreases t@.len() - pos, 6int,
{
    if pos >= t.len() {
        return Err(err_at("Expected an identifier after the navigation operator", t, pos, sl));
    }
    match t[pos].token {
        Token::Identifier(sp) => {
            if pos + 1 < t.len() && t[pos + 1].token == Token::Operator(
                OperatorVariation::OpeningRoundBracket,
            ) {
                match parse_call_args(t, sl, pos + 2) {
                    Ok((args, q)) => Ok((RValueVariant::FunctionCall(sp, ParameterList(args)), q)),
                    Err(e) => Err(e),
                }
            } else {
                Ok((RValueVariant::Identifier(sp), pos + 1))
            }
        },
        _ => Err(err_at("Expected an identifier after the navigation operator", t, pos, sl)),
    }
}

/// Folds navigation steps onto a parsed target, following [`nav_expr_more`].
fn parse_nav_more(t: &Vec<LocatedToken>, sl: usize, pos: usize, acc: Statement) -> (r: Result<
    (Statement, usize),
    ParsingError,
>)
    requires
        pos <= t@.len(),
    ensures
        (r is Ok) == (nav_expr_more(t@, sl as int, pos as int, statement_model(acc)) is Ok),
        r is Ok ==> statement_model(r->Ok_0.0) == nav_expr_more(
            t@,
            sl as int,
            pos as int,
            statement_model(acc),
        )->Ok_0.0 && r->Ok_0.1 as int == nav_expr_more(
            t@,
            sl as int,
            pos as int,
            statement_model(acc),
        )->Ok_0.1 && pos <= r->Ok_0.1 <= t@.len(),
        r is Err ==> r->Err_0@ == nav_expr_more(t@, sl as int, pos as int, statement_model(acc))
            ->Err_0,
    decreases t@.len() - pos, 7int,
{
    if pos >= t.len() {
        return Ok((acc, pos));
    }
    match navigation_operator_exec(t[pos].token) {
        Some(op) => {
            match parse_member(t, sl, pos + 1) {
                Ok((rv, q)) => {
                    proof {
                        assert(at_least(q as int, pos as int + 1) == q as int);
                        assert(statement_model(Statement::RValue(rv)) == StatementModel::RValue(
                            rvalue_model(rv),
                        ));
                    }
                    parse_nav_more(
                        t,
                        sl,
                        q,
                        Statement::BinaryOperation(
                            Box::new(acc),
                            op,
                            Box::new(Statement::RValue(rv)),
                        ),
                    )
                },
                Err(e) => Err(e),
            }
        },
        None => Ok((acc, pos)),
    }
}

/// Parses a navigation chain, following [`nav_expr`].
fn parse_nav(t: &Vec<LocatedToken>, sl: usize, pos: usize) -> (r: Result<
    (Statement, usize),
    ParsingError,
>)
    requires
        pos <= t@.len(),
    ensures
        (r is Ok) == (nav_expr(t@, sl as int, pos as int) is Ok),
        r is Ok ==> statement_model(r->Ok_0.0) == nav_expr(t@, sl as int, pos as int)->Ok_0.0 && r
            ->Ok_0.1 as int == nav_expr(t@, sl as int, pos as int)->Ok_0.1 && pos < r->Ok_0.1
            <= t@.len(),
        r is Err ==> r->Err_0@ == nav_expr(t@, sl as int, pos as int)->Err_0,
    decreases t@.len() - pos, 8int,
{
    match parse_primary(t, sl, pos) {
        Ok((first, p)) => {
            proof {
                assert(at_least(p as int, pos as int) == p as int);
            }
            parse_nav_more(t, sl, p, first)
        },
        Err(e) => Err(e),
    }
}

/// Parses a unary-prefix expression, following [`unary_expr`].
fn parse_unary(t: &Vec<LocatedToken>, sl: usize, pos: usize) -> (r: Result<
    (Statement, usize),
    ParsingError,
>)
    requires
        pos <= t@.len(),
    ensures
        (r is Ok) == (unary_expr(t@, sl as int, pos as int) is Ok),
        r is Ok ==> statement_model(r->Ok_0.0) == unary_expr(t@, sl as int, pos as int)->Ok_0.0
            && r->Ok_0.1 as int == unary_expr(t@, sl as int, pos as int)->Ok_0.1 && pos < r
            ->Ok_0.1 <= t@.len(),
        r is Err ==> r->Err_0@ == unary_expr(t@, sl as int, pos as int)->Err_0,
    decreases t@.len() - pos, 9int,
{
    if pos < t.len() && t[pos].token == Token::Keyword(KeywordVariation::Not) {
        match parse_unary(t, sl, pos + 1) {
            Ok((inner, p)) => Ok(
                (Statement::UnaryOperation(OperatorVariation::Not, Box::new(inner)), p),
            ),
            Err(e) => Err(e),
        }
    } else if pos < t.len() && t[pos].token == Token::Operator(OperatorVariation::Minus) {
        match parse_unary(t, sl, pos + 1) {
            Ok((inner, p)) => Ok(
                (Statement::UnaryOperation(OperatorVariation::Minus, Box::new(inner)), p),
            ),
            Err(e) => Err(e),
        }
    } else {
        parse_nav(t, sl, pos)
    }
}

/// Folds one level's operators onto a parsed left operand, following
/// [`level_expr_more`].
fn parse_level_more(
    t: &Vec<LocatedToken>,
    sl: usize,
    pos: usize,
    lvl: u8,
    acc: Statement,
) -> (r: Result<(Statement, usize), ParsingError>)
    requires
        pos <= t@.len(),
        1 <= lvl <= 7,
    ensures
        (r is Ok) == (level_expr_more(t@, sl as int, pos as int, lvl as int, statement_model(acc))
            is Ok),
        r is Ok ==> statement_model(r->Ok_0.0) == level_expr_more(
            t@,
            sl as int,
            pos as int,
            lvl as int,
            statement_model(acc),
        )->Ok_0.0 && r->Ok_0.1 as int == level_expr_more(
            t@,
            sl as int,
            pos as int,
            lvl as int,
            statement_model(acc),
        )->Ok_0.1 && pos <= r->Ok_0.1 <= t@.len(),
        r is Err ==> r->Err_0@ == level_expr_more(
            t@,
            sl as int,
            pos as int,
            lvl as int,
            statement_model(acc),
        )->Err_0,
    decreases t@.len() - pos, 10 + 2 * (lvl as int),
{
    if pos >= t.len() {
        return Ok((acc, pos));
    }
    match level_operator_exec(lvl, t[pos].token) {
        Some(op) => {
            let below = if lvl <= 1 {
                parse_unary(t, sl, pos + 1)
            } else {
                parse_level(t, sl, pos + 1, lvl - 1)
            };
            match below {
                Ok((rhs, p)) => {
                    proof {
                        assert(at_least(p as int, pos as int + 1) == p as int);
                    }
                    parse_level_more(
                        t,
                        sl,
                        p,
                        lvl,
                        Statement::BinaryOperation(Box::new(acc), op, Box::new(rhs)),
                    )
                },
                Err(e) => Err(e),
            }
        },
        None => Ok((acc, pos)),
    }
}

/// Parses a binary expression of level `lvl`, following [`level_expr`].
/// Level 7 parses a whole expression.
fn parse_level(t: &Vec<LocatedToken>, sl: usize, pos: usize, lvl: u8) -> (r: Result<
    (Statement, usize),
    ParsingError,
>)
    requires
        pos <= t@.len(),
        1 <= lvl <= 7,
    ensures
        (r is Ok) == (level_expr(t@, sl as int, pos as int, lvl as int) is Ok),
        r is Ok ==> statement_model(r->Ok_0.0) == level_expr(t@, sl as int, pos as int, lvl as int)
            ->Ok_0.0 && r->Ok_0.1 as int == level_expr(t@, sl as int, pos as int, lvl as int)
            ->Ok_0.1 && pos < r->Ok_0.1 <= t@.len(),
        r is Err ==> r->Err_0@ == level_expr(t@, sl as int, pos as int, lvl as int)->Err_0,
    decreases t@.len() - pos, 11 + 2 * (lvl as int),
{
    let below = if lvl <= 1 {
        parse_unary(t, sl, pos)
    } else {
        parse_level(t, sl, pos, lvl - 1)
    };
    match below {
        Ok((first, p)) => {
            proof {
                assert(at_least(p as int, pos as int) == p as int);
            }
            parse_level_more(t, sl, p, lvl, first)
        },
        Err(e) => Err(e),
    }
}

/// Parses the header that follows the context keyword, following
/// [`context_header`].
fn parse_context_header(t: &Vec<LocatedToken>, sl: usize) -> (r: Result<
    (Option<Span>, Span, usize),
    ParsingError,
>)
    ensures
        (r is Ok) == (context_header(t@, sl as int) is Ok),
        r is Ok ==> r->Ok_0.0 == context_header(t@, sl as int)->Ok_0.0 && r->Ok_0.1
            == context_header(t@, sl as int)->Ok_0.1 && r->Ok_0.2 as int == context_header(
            t@,
            sl as int,
        )->Ok_0.2 && r->Ok_0.2 <= t@.len(),
        r is Err ==> r->Err_0@ == context_header(t@, sl as int)->Err_0,
{
    if t.len() <= 1 {
        return Err(err_at("Expected a type name after the context keyword", t, 1, sl));
    }
    match t[1].token {
        Token::Identifier(sp1) => {
            if 2 < t.len() && t[2].token == Token::Operator(OperatorVariation::Colon) {
                if 3 < t.len() {
                    match t[3].token {
                        Token::Identifier(sp2) => Ok((Some(sp1), sp2, 4)),
                        _ => Err(
                            err_at("Expected a type name after the context keyword", t, 3, sl),
                        ),
                    }
                } else {
                    Err(err_at("Expected a type name after the context keyword", t, 3, sl))
                }
            } else {
                Ok((None, sp1, 2))
            }
        },
        _ => Err(err_at("Expected a type name after the context keyword", t, 1, sl)),
    }
}

/// Parses one whole unit over the token stream, following [`unit_decl`].
fn parse_unit(t: &Vec<LocatedToken>, sl: usize) -> (r: Result<AbstractSyntaxTree, ParsingError>)
    ensures
        (r is Ok) == (unit_decl(t@, sl as int) is Ok),
        r is Ok ==> tree_model(r->Ok_0) == unit_decl(t@, sl as int)->Ok_0,
        r is Err ==> r->Err_0@ == unit_decl(t@, sl as int)->Err_0,
{
    if t.len() == 0 {
        return Err(err_at("Expected an expression", t, 0, sl));
    }
    if t[0].token == Token::Keyword(KeywordVariation::Context) {
        match parse_context_header(t, sl) {
            Ok((inst, ctype, spos)) => {
                if spos >= t.len() {
                    return Err(err_at("Expected a stereotype keyword", t, spos, sl));
                }
                match t[spos].token {
                    Token::Keyword(k) => {
                        if is_stereotype_keyword_exec(k) {
                            let mut cname: Option<Span> = None;
                            if spos + 1 < t.len() {
                                match t[spos + 1].token {
                                    Token::Identifier(sp) => {
                                        cname = Some(sp);
                                    },
                                    _ => {},
                                }
                            }
                            let colonpos = if cname.is_some() {
                                spos + 2
                            } else {
                                spos + 1
                            };
                            if colonpos < t.len() && t[colonpos].token == Token::Operator(
                                OperatorVariation::Colon,
                            ) {
                                match parse_level(t, sl, colonpos + 1, 7) {
                                    Ok((body, p)) => {
                                        if p == t.len() {
                                            let node = make_node(k, body);
                                            Ok(
                                                AbstractSyntaxTree {
                                                    context: Some(
                                                        ContextBinding {
                                                            instance: inst,
                                                            context_type: ctype,
                                                            constraint_name: cname,
                                                        },
                                                    ),
                                                    root: Box::new(node),
                                                },
                                            )
                                        } else {
                                            Err(
                                                err_at(
                                                    "Unexpected token after the expression",
                                                    t,
                                                    p,
                                                    sl,
                                                ),
                                            )
                                        }
                                    },
                                    Err(e) => Err(e),
                                }
                            } else {
                                Err(
                                    err_at(
                                        "Expected a colon before the constraint expression",
                                        t,
                                        colonpos,
                                        sl,
                                    ),
                                )
                            }
                        } else {
                            Err(err_at("Expected a stereotype keyword", t, spos, sl))
                        }
                    },
                    _ => Err(err_at("Expected a stereotype keyword", t, spos, sl)),
                }
            },
            Err(e) => Err(e),
        }
    } else {
        match parse_level(t, sl, 0, 7) {
            Ok((body, p)) => {
                if p == t.len() {
                    Ok(
                        AbstractSyntaxTree {
                            context: None,
                            root: Box::new(AbstractSyntaxTreeNode::Invariant(body)),
                        },
                    )
                } else {
                    Err(err_at("Unexpected token after the expression", t, p, sl))
                }
            },
            Err(e) => Err(e),
        }
    }
}

/// Turns source bytes into the syntax tree of one constraint: scans them
/// into tokens, then parses the token stream as one unit, failing fast with
/// the first error of either stage.  The result is exactly what the grammar
/// function [`parse_source`] describes.
pub fn parse(input: &[u8]) -> (r: Result<AbstractSyntaxTree, ParsingError>)
    ensures
        (r is Ok) == (parse_source(input@) is Ok),
        r is Ok ==> tree_model(r->Ok_0) == parse_source(input@)->Ok_0,
        r is Err ==> r->Err_0@ == parse_source(input@)->Err_0,
{
    match lex_located(input) {
        Ok(toks) => parse_unit(&toks, input.len()),
        Err(e) => Err(e),
    }
}

impl AbstractSyntaxTree {
    /// Parses `input` into a syntax tree, as [`parse`] does.
    pub fn from(input: &[u8]) -> (r: Result<AbstractSyntaxTree, ParsingError>)
        ensures
            (r is Ok) == (parse_source(input@) is Ok),
            r is Ok ==> tree_model(r->Ok_0) == parse_source(input@)->Ok_0,
            r is Err ==> r->Err_0@ == parse_source(input@)->Err_0,
    {
        parse(input)
    }
}

// --- laws of the parser ---

/// Parsing is deterministic: the syntax tree, or the error, is a function of
/// the input bytes alone, so two parses of the same input agree structurally.
pub proof fn lemma_parse_deterministic(
    s: Seq<u8>,
    r1: Result<TreeModel, ErrorModel>,
    r2: Result<TreeModel, ErrorModel>,
)
    requires
        r1 == parse_source(s),
        r2 == parse_source(s),
    ensures
        r1 == r2,
{
}

} // verus!
