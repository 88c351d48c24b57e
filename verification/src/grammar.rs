//! The grammar, as mathematical functions on a token sequence.
//!
//! Each production is a function from a cursor to the view of what it
//! parses and the cursor after it. The parser is proved to compute exactly
//! these functions.
//!
//! A production that goes on after one of its parts first asks that the
//! part has moved the cursor forward. It is asked because a definition by
//! recursion has to show its own termination; the answer is always yes, as
//! the parser proves of each of its methods: a production that succeeds has
//! moved the cursor forward.

use vstd::prelude::*;
use crate::token::{Token, TokenType};
use crate::value::LiteralValue;
use crate::ast::{ExpressionView, StatementView, FunctionView};

verus! {

/// What a function declaration is called in a message: a function or a
/// method.
#[derive(PartialEq, Eq, Structural, Clone, Copy, Debug)]
pub enum FunctionKind {
    Function,
    Method,
}

/// What the parser expected, or refused.
#[derive(PartialEq, Eq, Structural, Clone, Copy, Debug)]
pub enum ParseMessage {
    ExpectExpression,
    ExpectRightParenAfterExpression,
    ExpectDotAfterSuper,
    ExpectSuperclassMethodName,
    TooManyArguments,
    ExpectRightParenAfterArguments,
    ExpectPropertyName,
    InvalidAssignmentTarget,
    ExpectSemicolonAfterValue,
    ExpectLeftParenAfterWhile,
    ExpectRightParenAfterCondition,
    ExpectLeftParenAfterFor,
    ExpectSemicolonAfterLoopCondition,
    ExpectRightParenAfterForClauses,
    ExpectRightBraceAfterBlock,
    ExpectLeftParenAfterIf,
    ExpectRightParenAfterIfCondition,
    ExpectSemicolonAfterReturnValue,
    ExpectVariableName,
    ExpectSemicolonAfterVariableDeclaration,
    ExpectClassName,
    ExpectSuperclassName,
    ExpectLeftBraceBeforeClassBody,
    ExpectRightBraceAfterClassBody,
    ExpectName(FunctionKind),
    ExpectLeftParenAfterName(FunctionKind),
    ExpectParameterName,
    TooManyParameters,
    ExpectRightParenAfterParameters,
    ExpectLeftBraceBeforeBody(FunctionKind),
}

/// A parse error: the token at which it was found, and what was wrong.
#[derive(Debug)]
pub struct ParseError {
    pub token: Token,
    pub message: ParseMessage,
}

/// Where the parser stands: the index of the next token, the identity that
/// the next expression node will get, and the errors reported so far.
pub struct Cursor {
    pub current: int,
    pub next_id: int,
    pub diagnostics: Seq<ParseError>,
}

/// The most arguments a call, and the most parameters a function, may have.
pub const MAX_ARITY: usize = 255;

/// A token sequence that the parser accepts: it ends in `EOF`.
pub open spec fn well_formed(tokens: Seq<Token>) -> bool {
    tokens.len() > 0 && tokens.last().token_type == TokenType::EOF
}

/// Whether the cursor stands on a token.
pub open spec fn in_range(tokens: Seq<Token>, c: Cursor) -> bool {
    0 <= c.current < tokens.len()
}

/// The token under the cursor.
pub open spec fn peek(tokens: Seq<Token>, c: Cursor) -> Token {
    tokens[c.current]
}

/// The token in front of the cursor.
pub open spec fn previous(tokens: Seq<Token>, c: Cursor) -> Token {
    tokens[c.current - 1]
}

/// Whether the token under the cursor is of a kind.
pub open spec fn check(tokens: Seq<Token>, c: Cursor, t: TokenType) -> bool {
    peek(tokens, c).token_type == t
}

/// Whether the cursor stands on `EOF`.
pub open spec fn at_end(tokens: Seq<Token>, c: Cursor) -> bool {
    check(tokens, c, TokenType::EOF)
}

/// The cursor one token further on, unless it stands on `EOF`.
pub open spec fn advance(tokens: Seq<Token>, c: Cursor) -> Cursor {
    if at_end(tokens, c) {
        c
    } else {
        Cursor { current: c.current + 1, ..c }
    }
}

/// The cursor after one identity has been given out.
pub open spec fn bump(c: Cursor) -> Cursor {
    Cursor { next_id: c.next_id + 1, ..c }
}

/// Whether a token kind begins a statement.
pub open spec fn begins_statement(t: TokenType) -> bool {
    t == TokenType::CLASS || t == TokenType::FUN || t == TokenType::VAR || t == TokenType::FOR
        || t == TokenType::IF || t == TokenType::WHILE || t == TokenType::PRINT || t
        == TokenType::RETURN
}

/// The index at which discarding stops: at `EOF`, just behind a semicolon,
/// or in front of a token that begins a statement.
pub open spec fn skip(tokens: Seq<Token>, from: int) -> int
    decreases tokens.len() - from,
{
    if from < 1 || from >= tokens.len() {
        from
    } else if tokens[from].token_type == TokenType::EOF {
        from
    } else if tokens[from - 1].token_type == TokenType::SEMICOLON {
        from
    } else if begins_statement(tokens[from].token_type) {
        from
    } else {
        skip(tokens, from + 1)
    }
}

/// Panic-mode recovery: step over the offending token, then discard tokens
/// up to the next statement boundary.
pub open spec fn synchronize(tokens: Seq<Token>, c: Cursor) -> Cursor {
    if at_end(tokens, c) {
        c
    } else {
        Cursor { current: skip(tokens, c.current + 1), ..c }
    }
}

/// Report an error at a token, then recover.
pub open spec fn report(
    tokens: Seq<Token>,
    c: Cursor,
    token: Token,
    message: ParseMessage,
) -> Cursor {
    synchronize(
        tokens,
        Cursor { diagnostics: c.diagnostics.push(ParseError { token, message }), ..c },
    )
}

/// Take the next token if it is of the given kind; report the message at it
/// if it is not.
pub open spec fn consume(
    tokens: Seq<Token>,
    c: Cursor,
    t: TokenType,
    message: ParseMessage,
) -> (Result<Token, ParseError>, Cursor) {
    if check(tokens, c, t) {
        (Ok(peek(tokens, c)), advance(tokens, c))
    } else {
        let token = peek(tokens, c);
        (Err(ParseError { token, message }), report(tokens, c, token, message))
    }
}

/// Discarding never moves backwards, and stays on a token.
pub proof fn skip_bounds(tokens: Seq<Token>, from: int)
    requires
        well_formed(tokens),
        1 <= from <= tokens.len() - 1,
    ensures
        from <= skip(tokens, from) <= tokens.len() - 1,
    decreases tokens.len() - from,
{
    if tokens[from].token_type == TokenType::EOF {
    } else if tokens[from - 1].token_type == TokenType::SEMICOLON {
    } else if begins_statement(tokens[from].token_type) {
    } else {
        skip_bounds(tokens, from + 1);
    }
}

/// Whether discarding stops at an index: at `EOF`, just behind a semicolon,
/// or in front of a token that begins a statement.
pub open spec fn stops(tokens: Seq<Token>, at: int) -> bool {
    tokens[at].token_type == TokenType::EOF || tokens[at - 1].token_type == TokenType::SEMICOLON
        || begins_statement(tokens[at].token_type)
}

/// Discarding stops at the first index at which it may: it may stop where
/// it stops, and nowhere in front of that.
pub proof fn skip_is_first(tokens: Seq<Token>, from: int)
    requires
        well_formed(tokens),
        1 <= from <= tokens.len() - 1,
    ensures
        stops(tokens, skip(tokens, from)),
        forall|i: int| from <= i < skip(tokens, from) ==> !stops(tokens, i),
    decreases tokens.len() - from,
{
    if !stops(tokens, from) {
        skip_is_first(tokens, from + 1);
    }
}

/// Recovery moves the cursor forward unless it stands on `EOF`, and leaves
/// it on a token.
pub proof fn synchronize_bounds(tokens: Seq<Token>, c: Cursor)
    requires
        well_formed(tokens),
        in_range(tokens, c),
    ensures
        in_range(tokens, synchronize(tokens, c)),
        at_end(tokens, c) ==> synchronize(tokens, c) == c,
        !at_end(tokens, c) ==> synchronize(tokens, c).current > c.current,
        synchronize(tokens, c).next_id == c.next_id,
        synchronize(tokens, c).diagnostics == c.diagnostics,
{
    if !at_end(tokens, c) {
        skip_bounds(tokens, c.current + 1);
    }
}

/// Whether a cursor stands on a token behind another cursor.
pub open spec fn forward(tokens: Seq<Token>, before: Cursor, after: Cursor) -> bool {
    after.current > before.current && in_range(tokens, after)
}

/// What a production yields: its result and the cursor after it.
pub type Parsed<T> = (Result<T, ParseError>, Cursor);

/// The levels of left-associative binary operators, from the tightest.
#[derive(PartialEq, Eq, Structural, Clone, Copy, Debug)]
pub enum BinaryLevel {
    Factor,
    Term,
    Comparison,
    Equality,
}

/// Whether a token kind is an operator of the level.
pub open spec fn is_operator(level: BinaryLevel, t: TokenType) -> bool {
    match level {
        BinaryLevel::Factor => t == TokenType::SLASH || t == TokenType::STAR,
        BinaryLevel::Term => t == TokenType::MINUS || t == TokenType::PLUS,
        BinaryLevel::Comparison => t == TokenType::LESS || t == TokenType::LESS_EQUAL || t
            == TokenType::GREATER || t == TokenType::GREATER_EQUAL,
        BinaryLevel::Equality => t == TokenType::BANG_EQUAL || t == TokenType::EQUAL_EQUAL,
    }
}

/// The place of a level in the order of the recursion.
pub open spec fn level_rank(level: BinaryLevel) -> int {
    match level {
        BinaryLevel::Factor => 5,
        BinaryLevel::Term => 7,
        BinaryLevel::Comparison => 9,
        BinaryLevel::Equality => 11,
    }
}

/// A literal node for a constant.
pub open spec fn literal(value: LiteralValue, c: Cursor) -> ExpressionView {
    ExpressionView::Literal { value, id: c.next_id as u64 }
}

/// `primary := NUMBER | STRING | "true" | "false" | "nil" | "(" expression ")"
///           | IDENT | "this" | "super" "." IDENT`
pub open spec fn primary(tokens: Seq<Token>, c: Cursor) -> Parsed<ExpressionView>
    decreases tokens.len() - c.current, 0int,
    when in_range(tokens, c)
{
    let token = peek(tokens, c);
    let next = advance(tokens, c);
    match token.token_type {
        TokenType::FALSE => (Ok(literal(LiteralValue::Boolean(false), next)), bump(next)),
        TokenType::TRUE => (Ok(literal(LiteralValue::Boolean(true), next)), bump(next)),
        TokenType::NIL => (Ok(literal(LiteralValue::Nil, next)), bump(next)),
        TokenType::STRING => (
            Ok(literal(LiteralValue::String(token.token_value), next)),
            bump(next),
        ),
        TokenType::NUMBER => (
            Ok(literal(LiteralValue::Number(token.token_value), next)),
            bump(next),
        ),
        TokenType::LEFT_PAREN => {
            let (inner, c1) = expression(tokens, next);
            match inner {
                Ok(e) => {
                    let (paren, c2) = consume(
                        tokens,
                        c1,
                        TokenType::RIGHT_PAREN,
                        ParseMessage::ExpectRightParenAfterExpression,
                    );
                    match paren {
                        Ok(_) => (
                            Ok(
                                ExpressionView::Grouping {
                                    expression: Box::new(e),
                                    id: c2.next_id as u64,
                                },
                            ),
                            bump(c2),
                        ),
                        Err(error) => (Err(error), c2),
                    }
                },
                Err(error) => (Err(error), c1),
            }
        },
        TokenType::IDENTIFIER => (
            Ok(ExpressionView::Variable { variable: token, id: next.next_id as u64 }),
            bump(next),
        ),
        TokenType::THIS => (
            Ok(ExpressionView::This { value: token, id: next.next_id as u64 }),
            bump(next),
        ),
        TokenType::SUPER => {
            let (dot, c1) = consume(tokens, next, TokenType::DOT, ParseMessage::ExpectDotAfterSuper);
            match dot {
                Ok(_) => {
                    let (method, c2) = consume(
                        tokens,
                        c1,
                        TokenType::IDENTIFIER,
                        ParseMessage::ExpectSuperclassMethodName,
                    );
                    match method {
                        Ok(method) => (
                            Ok(
                                ExpressionView::Super {
                                    keyword: token,
                                    method,
                                    id: c2.next_id as u64,
                                },
                            ),
                            bump(c2),
                        ),
                        Err(error) => (Err(error), c2),
                    }
                },
                Err(error) => (Err(error), c1),
            }
        },
        _ => (
            Err(ParseError { token, message: ParseMessage::ExpectExpression }),
            report(tokens, c, token, ParseMessage::ExpectExpression),
        ),
    }
}

/// The arguments that follow the first, each behind a comma. An argument
/// beyond the limit is reported and parsed all the same.
pub open spec fn arguments_rest(
    tokens: Seq<Token>,
    c: Cursor,
    arguments: Seq<ExpressionView>,
) -> Parsed<Seq<ExpressionView>>
    decreases tokens.len() - c.current, 1int,
    when in_range(tokens, c) && well_formed(tokens)
{
    if check(tokens, c, TokenType::COMMA) {
        let c1 = advance(tokens, c);
        let c2 = if arguments.len() >= MAX_ARITY {
            report(tokens, c1, peek(tokens, c1), ParseMessage::TooManyArguments)
        } else {
            c1
        };
        proof {
            synchronize_bounds(tokens, Cursor { diagnostics: c2.diagnostics, ..c1 });
        }
        let (argument, c3) = expression(tokens, c2);
        match argument {
            Ok(e) => if forward(tokens, c, c3) {
                arguments_rest(tokens, c3, arguments.push(e))
            } else {
                (Ok(arguments.push(e)), c3)
            },
            Err(error) => (Err(error), c3),
        }
    } else {
        (Ok(arguments), c)
    }
}

/// The rest of a call, from behind its opening parenthesis.
pub open spec fn finish_call(
    tokens: Seq<Token>,
    c: Cursor,
    callee: ExpressionView,
) -> Parsed<ExpressionView>
    decreases tokens.len() - c.current, 60int,
    when in_range(tokens, c) && well_formed(tokens)
{
    let (arguments, c2) = if check(tokens, c, TokenType::RIGHT_PAREN) {
        (Ok(Seq::empty()), c)
    } else {
        let (first, c1) = expression(tokens, c);
        match first {
            Ok(e) => if forward(tokens, c, c1) {
                arguments_rest(tokens, c1, seq![e])
            } else {
                (Ok(seq![e]), c1)
            },
            Err(error) => (Err(error), c1),
        }
    };
    match arguments {
        Ok(arguments) => {
            let (paren, c3) = consume(
                tokens,
                c2,
                TokenType::RIGHT_PAREN,
                ParseMessage::ExpectRightParenAfterArguments,
            );
            match paren {
                Ok(paren) => (
                    Ok(
                        ExpressionView::Call {
                            callee: Box::new(callee),
                            paren,
                            arguments,
                            id: c3.next_id as u64,
                        },
                    ),
                    bump(c3),
                ),
                Err(error) => (Err(error), c3),
            }
        },
        Err(error) => (Err(error), c2),
    }
}

/// The calls and property reads that follow a primary expression.
pub open spec fn call_rest(
    tokens: Seq<Token>,
    c: Cursor,
    e: ExpressionView,
) -> Parsed<ExpressionView>
    decreases tokens.len() - c.current, 1int,
    when in_range(tokens, c) && well_formed(tokens)
{
    if check(tokens, c, TokenType::LEFT_PAREN) {
        let (called, c1) = finish_call(tokens, advance(tokens, c), e);
        match called {
            Ok(called) => if forward(tokens, c, c1) {
                call_rest(tokens, c1, called)
            } else {
                (Ok(called), c1)
            },
            Err(error) => (Err(error), c1),
        }
    } else if check(tokens, c, TokenType::DOT) {
        let (name, c1) = consume(
            tokens,
            advance(tokens, c),
            TokenType::IDENTIFIER,
            ParseMessage::ExpectPropertyName,
        );
        match name {
            Ok(name) => call_rest(
                tokens,
                bump(c1),
                ExpressionView::Get { expression: Box::new(e), name, id: c1.next_id as u64 },
            ),
            Err(error) => (Err(error), c1),
        }
    } else {
        (Ok(e), c)
    }
}

/// `call := primary ( "(" args? ")" | "." IDENT )*`
pub open spec fn call(tokens: Seq<Token>, c: Cursor) -> Parsed<ExpressionView>
    decreases tokens.len() - c.current, 2int,
    when in_range(tokens, c) && well_formed(tokens)
{
    let (first, c1) = primary(tokens, c);
    match first {
        Ok(e) => if forward(tokens, c, c1) {
            call_rest(tokens, c1, e)
        } else {
            (Ok(e), c1)
        },
        Err(error) => (Err(error), c1),
    }
}

/// `unary := ( "!" | "-" ) unary | call`
pub open spec fn unary(tokens: Seq<Token>, c: Cursor) -> Parsed<ExpressionView>
    decreases tokens.len() - c.current, 3int,
    when in_range(tokens, c) && well_formed(tokens)
{
    if check(tokens, c, TokenType::BANG) || check(tokens, c, TokenType::MINUS) {
        let operator = peek(tokens, c);
        let (operand, c1) = unary(tokens, advance(tokens, c));
        match operand {
            Ok(e) => (
                Ok(
                    ExpressionView::Unary {
                        operator,
                        expression: Box::new(e),
                        id: c1.next_id as u64,
                    },
                ),
                bump(c1),
            ),
            Err(error) => (Err(error), c1),
        }
    } else {
        call(tokens, c)
    }
}

/// An operand of a level: an expression of the next tighter level.
pub open spec fn operand(
    tokens: Seq<Token>,
    c: Cursor,
    level: BinaryLevel,
) -> Parsed<ExpressionView>
    decreases tokens.len() - c.current, level_rank(level) - 1,
    when in_range(tokens, c) && well_formed(tokens)
{
    match level {
        BinaryLevel::Factor => unary(tokens, c),
        BinaryLevel::Term => binary(tokens, c, BinaryLevel::Factor),
        BinaryLevel::Comparison => binary(tokens, c, BinaryLevel::Term),
        BinaryLevel::Equality => binary(tokens, c, BinaryLevel::Comparison),
    }
}

/// The operators of a level and their right operands, folded to the left.
pub open spec fn binary_rest(
    tokens: Seq<Token>,
    c: Cursor,
    level: BinaryLevel,
    left: ExpressionView,
) -> Parsed<ExpressionView>
    decreases tokens.len() - c.current, 1int,
    when in_range(tokens, c) && well_formed(tokens)
{
    if is_operator(level, peek(tokens, c).token_type) {
        let operator = peek(tokens, c);
        let (right, c1) = operand(tokens, advance(tokens, c), level);
        match right {
            Ok(right) => if forward(tokens, c, c1) {
                binary_rest(
                    tokens,
                    bump(c1),
                    level,
                    ExpressionView::Binary {
                        left: Box::new(left),
                        operator,
                        right: Box::new(right),
                        id: c1.next_id as u64,
                    },
                )
            } else {
                (Ok(right), c1)
            },
            Err(error) => (Err(error), c1),
        }
    } else {
        (Ok(left), c)
    }
}

/// A chain of operators of one level:
/// `factor`, `term`, `comparison` and `equality` of the grammar.
pub open spec fn binary(tokens: Seq<Token>, c: Cursor, level: BinaryLevel) -> Parsed<ExpressionView>
    decreases tokens.len() - c.current, level_rank(level),
    when in_range(tokens, c) && well_formed(tokens)
{
    let (first, c1) = operand(tokens, c, level);
    match first {
        Ok(e) => if forward(tokens, c, c1) {
            binary_rest(tokens, c1, level, e)
        } else {
            (Ok(e), c1)
        },
        Err(error) => (Err(error), c1),
    }
}

/// The `and` operators and their right operands, folded to the left.
pub open spec fn and_rest(
    tokens: Seq<Token>,
    c: Cursor,
    left: ExpressionView,
) -> Parsed<ExpressionView>
    decreases tokens.len() - c.current, 1int,
    when in_range(tokens, c) && well_formed(tokens)
{
    if check(tokens, c, TokenType::AND) {
        let operator = peek(tokens, c);
        let (right, c1) = binary(tokens, advance(tokens, c), BinaryLevel::Equality);
        match right {
            Ok(right) => if forward(tokens, c, c1) {
                and_rest(
                    tokens,
                    bump(c1),
                    ExpressionView::Logical {
                        left: Box::new(left),
                        operator,
                        right: Box::new(right),
                        id: c1.next_id as u64,
                    },
                )
            } else {
                (Ok(right), c1)
            },
            Err(error) => (Err(error), c1),
        }
    } else {
        (Ok(left), c)
    }
}

/// `logicAnd := equality ( "and" equality )*`
pub open spec fn and(tokens: Seq<Token>, c: Cursor) -> Parsed<ExpressionView>
    decreases tokens.len() - c.current, 13int,
    when in_range(tokens, c) && well_formed(tokens)
{
    let (first, c1) = binary(tokens, c, BinaryLevel::Equality);
    match first {
        Ok(e) => if forward(tokens, c, c1) {
            and_rest(tokens, c1, e)
        } else {
            (Ok(e), c1)
        },
        Err(error) => (Err(error), c1),
    }
}

/// The `or` operators and their right operands, folded to the left.
pub open spec fn or_rest(
    tokens: Seq<Token>,
    c: Cursor,
    left: ExpressionView,
) -> Parsed<ExpressionView>
    decreases tokens.len() - c.current, 1int,
    when in_range(tokens, c) && well_formed(tokens)
{
    if check(tokens, c, TokenType::OR) {
        let operator = peek(tokens, c);
        let (right, c1) = and(tokens, advance(tokens, c));
        match right {
            Ok(right) => if forward(tokens, c, c1) {
                or_rest(
                    tokens,
                    bump(c1),
                    ExpressionView::Logical {
                        left: Box::new(left),
                        operator,
                        right: Box::new(right),
                        id: c1.next_id as u64,
                    },
                )
            } else {
                (Ok(right), c1)
            },
            Err(error) => (Err(error), c1),
        }
    } else {
        (Ok(left), c)
    }
}

/// `logicOr := logicAnd ( "or" logicAnd )*`
pub open spec fn or(tokens: Seq<Token>, c: Cursor) -> Parsed<ExpressionView>
    decreases tokens.len() - c.current, 14int,
    when in_range(tokens, c) && well_formed(tokens)
{
    let (first, c1) = and(tokens, c);
    match first {
        Ok(e) => if forward(tokens, c, c1) {
            or_rest(tokens, c1, e)
        } else {
            (Ok(e), c1)
        },
        Err(error) => (Err(error), c1),
    }
}

/// What an assignment to a target is: a write to a name, a write to a
/// property, or, for any other target, the target itself with the error
/// reported at the `=`.
pub open spec fn assign_to(
    tokens: Seq<Token>,
    c: Cursor,
    target: ExpressionView,
    equals: Token,
    value: ExpressionView,
) -> (ExpressionView, Cursor) {
    match target {
        ExpressionView::Variable { variable, .. } => (
            ExpressionView::Assignment { name: variable, value: Box::new(value), id: c.next_id as u64 },
            bump(c),
        ),
        ExpressionView::Get { expression, name, .. } => (
            ExpressionView::SetField { expression, name, value: Box::new(value), id: c.next_id as u64 },
            bump(c),
        ),
        _ => (target, report(tokens, c, equals, ParseMessage::InvalidAssignmentTarget)),
    }
}

/// `assignment := ( call "." IDENT | IDENT ) "=" assignment | logicOr`
pub open spec fn assignment(tokens: Seq<Token>, c: Cursor) -> Parsed<ExpressionView>
    decreases tokens.len() - c.current, 15int,
    when in_range(tokens, c) && well_formed(tokens)
{
    let (target, c1) = or(tokens, c);
    match target {
        Ok(target) => if forward(tokens, c, c1) && check(tokens, c1, TokenType::EQUAL) {
            let equals = peek(tokens, c1);
            let (value, c2) = assignment(tokens, advance(tokens, c1));
            match value {
                Ok(value) => {
                    let (e, c3) = assign_to(tokens, c2, target, equals, value);
                    (Ok(e), c3)
                },
                Err(error) => (Err(error), c2),
            }
        } else {
            (Ok(target), c1)
        },
        Err(error) => (Err(error), c1),
    }
}

/// `expression := assignment`
pub open spec fn expression(tokens: Seq<Token>, c: Cursor) -> Parsed<ExpressionView>
    decreases tokens.len() - c.current, 16int,
    when in_range(tokens, c) && well_formed(tokens)
{
    assignment(tokens, c)
}

/// An expression and the semicolon behind it.
pub open spec fn terminated_expression(tokens: Seq<Token>, c: Cursor) -> Parsed<ExpressionView>
    decreases tokens.len() - c.current, 19int,
    when in_range(tokens, c) && well_formed(tokens)
{
    let (value, c1) = expression(tokens, c);
    match value {
        Ok(e) => {
            let (semicolon, c2) = consume(
                tokens,
                c1,
                TokenType::SEMICOLON,
                ParseMessage::ExpectSemicolonAfterValue,
            );
            match semicolon {
                Ok(_) => (Ok(e), c2),
                Err(error) => (Err(error), c2),
            }
        },
        Err(error) => (Err(error), c1),
    }
}

/// `exprStmt := expression ";"`
pub open spec fn expression_statement(tokens: Seq<Token>, c: Cursor) -> Parsed<StatementView>
    decreases tokens.len() - c.current, 20int,
    when in_range(tokens, c) && well_formed(tokens)
{
    let (value, c1) = terminated_expression(tokens, c);
    match value {
        Ok(expression) => (Ok(StatementView::Expression { expression }), c1),
        Err(error) => (Err(error), c1),
    }
}

/// `printStmt := "print" expression ";"`, from behind the keyword.
pub open spec fn print_statement(tokens: Seq<Token>, c: Cursor) -> Parsed<StatementView>
    decreases tokens.len() - c.current, 20int,
    when in_range(tokens, c) && well_formed(tokens)
{
    let (value, c1) = terminated_expression(tokens, c);
    match value {
        Ok(expression) => (Ok(StatementView::Print { expression }), c1),
        Err(error) => (Err(error), c1),
    }
}

/// `returnStmt := "return" expression? ";"`, from behind the keyword.
pub open spec fn return_statement(tokens: Seq<Token>, c: Cursor) -> Parsed<StatementView>
    decreases tokens.len() - c.current, 20int,
    when in_range(tokens, c) && well_formed(tokens) && c.current >= 1
{
    let keyword = previous(tokens, c);
    let (value, c1) = if check(tokens, c, TokenType::SEMICOLON) {
        (Ok(None), c)
    } else {
        let (value, c1) = expression(tokens, c);
        match value {
            Ok(e) => (Ok(Some(e)), c1),
            Err(error) => (Err(error), c1),
        }
    };
    match value {
        Ok(value) => {
            let (semicolon, c2) = consume(
                tokens,
                c1,
                TokenType::SEMICOLON,
                ParseMessage::ExpectSemicolonAfterReturnValue,
            );
            match semicolon {
                Ok(_) => (Ok(StatementView::Return { keyword, value }), c2),
                Err(error) => (Err(error), c2),
            }
        },
        Err(error) => (Err(error), c1),
    }
}

/// A condition in parentheses.
pub open spec fn condition(
    tokens: Seq<Token>,
    c: Cursor,
    open: ParseMessage,
    close: ParseMessage,
) -> Parsed<ExpressionView>
    decreases tokens.len() - c.current, 19int,
    when in_range(tokens, c) && well_formed(tokens)
{
    let (paren, c1) = consume(tokens, c, TokenType::LEFT_PAREN, open);
    match paren {
        Ok(_) => {
            let (value, c2) = expression(tokens, c1);
            match value {
                Ok(e) => {
                    let (paren, c3) = consume(tokens, c2, TokenType::RIGHT_PAREN, close);
                    match paren {
                        Ok(_) => (Ok(e), c3),
                        Err(error) => (Err(error), c3),
                    }
                },
                Err(error) => (Err(error), c2),
            }
        },
        Err(error) => (Err(error), c1),
    }
}

/// `whileStmt := "while" "(" expression ")" statement`, from behind the
/// keyword.
pub open spec fn while_statement(tokens: Seq<Token>, c: Cursor) -> Parsed<StatementView>
    decreases tokens.len() - c.current, 20int,
    when in_range(tokens, c) && well_formed(tokens)
{
    let (test, c1) = condition(
        tokens,
        c,
        ParseMessage::ExpectLeftParenAfterWhile,
        ParseMessage::ExpectRightParenAfterCondition,
    );
    match test {
        Ok(test) => if forward(tokens, c, c1) {
            let (body, c2) = statement(tokens, c1);
            match body {
                Ok(body) => (Ok(StatementView::While { condition: test, body: Box::new(body) }), c2),
                Err(error) => (Err(error), c2),
            }
        } else {
            (Err(arbitrary()), c1)
        },
        Err(error) => (Err(error), c1),
    }
}

/// `ifStmt := "if" "(" expression ")" statement ( "else" statement )?`, from
/// behind the keyword.
pub open spec fn if_statement(tokens: Seq<Token>, c: Cursor) -> Parsed<StatementView>
    decreases tokens.len() - c.current, 20int,
    when in_range(tokens, c) && well_formed(tokens)
{
    let (test, c1) = condition(
        tokens,
        c,
        ParseMessage::ExpectLeftParenAfterIf,
        ParseMessage::ExpectRightParenAfterIfCondition,
    );
    match test {
        Ok(test) => if forward(tokens, c, c1) {
            let (then_statement, c2) = statement(tokens, c1);
            match then_statement {
                Ok(then_statement) => if forward(tokens, c, c2) && check(
                    tokens,
                    c2,
                    TokenType::ELSE,
                ) {
                    let (else_statement, c3) = statement(tokens, advance(tokens, c2));
                    match else_statement {
                        Ok(else_statement) => (
                            Ok(
                                StatementView::If {
                                    condition: test,
                                    then_statement: Box::new(then_statement),
                                    else_statement: Some(Box::new(else_statement)),
                                },
                            ),
                            c3,
                        ),
                        Err(error) => (Err(error), c3),
                    }
                } else {
                    (
                        Ok(
                            StatementView::If {
                                condition: test,
                                then_statement: Box::new(then_statement),
                                else_statement: None,
                            },
                        ),
                        c2,
                    )
                },
                Err(error) => (Err(error), c2),
            }
        } else {
            (Err(arbitrary()), c1)
        },
        Err(error) => (Err(error), c1),
    }
}

/// The first clause of a `for` loop: nothing, a variable declaration or an
/// expression statement.
pub open spec fn for_initializer(tokens: Seq<Token>, c: Cursor) -> Parsed<Option<StatementView>>
    decreases tokens.len() - c.current, 21int,
    when in_range(tokens, c) && well_formed(tokens)
{
    if check(tokens, c, TokenType::SEMICOLON) {
        (Ok(None), advance(tokens, c))
    } else {
        let (initializer, c1) = if check(tokens, c, TokenType::VAR) {
            var_declaration(tokens, advance(tokens, c))
        } else {
            expression_statement(tokens, c)
        };
        match initializer {
            Ok(s) => (Ok(Some(s)), c1),
            Err(error) => (Err(error), c1),
        }
    }
}

/// An optional expression in front of a closing token.
pub open spec fn for_clause(
    tokens: Seq<Token>,
    c: Cursor,
    close: TokenType,
    message: ParseMessage,
) -> Parsed<Option<ExpressionView>>
    decreases tokens.len() - c.current, 19int,
    when in_range(tokens, c) && well_formed(tokens)
{
    let (value, c1) = if check(tokens, c, close) {
        (Ok(None), c)
    } else {
        let (value, c1) = expression(tokens, c);
        match value {
            Ok(e) => (Ok(Some(e)), c1),
            Err(error) => (Err(error), c1),
        }
    };
    match value {
        Ok(value) => {
            let (closing, c2) = consume(tokens, c1, close, message);
            match closing {
                Ok(_) => (Ok(value), c2),
                Err(error) => (Err(error), c2),
            }
        },
        Err(error) => (Err(error), c1),
    }
}

/// What a `for` loop stands for: the body, followed by the increment if
/// there is one, in a `while` loop on the condition, or on `true` if there
/// is none, behind the initializer if there is one.
pub open spec fn desugar(
    initializer: Option<StatementView>,
    condition: Option<ExpressionView>,
    increment: Option<ExpressionView>,
    body: StatementView,
    id: u64,
) -> StatementView {
    let body = match increment {
        Some(increment) => StatementView::Block {
            statements: seq![body, StatementView::Expression { expression: increment }],
        },
        None => body,
    };
    let condition = match condition {
        Some(condition) => condition,
        None => ExpressionView::Literal { value: LiteralValue::Boolean(true), id },
    };
    let body = StatementView::While { condition, body: Box::new(body) };
    match initializer {
        Some(initializer) => StatementView::Block { statements: seq![initializer, body] },
        None => body,
    }
}

/// `forStmt := "for" "(" ( varDecl | exprStmt | ";" ) expression? ";"
/// expression? ")" statement`, from behind the keyword. A missing condition
/// takes one identity for its `true`.
pub open spec fn for_statement(tokens: Seq<Token>, c: Cursor) -> Parsed<StatementView>
    decreases tokens.len() - c.current, 22int,
    when in_range(tokens, c) && well_formed(tokens)
{
    let (paren, c1) = consume(tokens, c, TokenType::LEFT_PAREN, ParseMessage::ExpectLeftParenAfterFor);
    match paren {
        Ok(_) => {
            let (initializer, c2) = for_initializer(tokens, c1);
            match initializer {
                Ok(initializer) => if forward(tokens, c, c2) {
                    let (test, c3) = for_clause(
                        tokens,
                        c2,
                        TokenType::SEMICOLON,
                        ParseMessage::ExpectSemicolonAfterLoopCondition,
                    );
                    match test {
                        Ok(test) => if forward(tokens, c, c3) {
                            let (increment, c4) = for_clause(
                                tokens,
                                c3,
                                TokenType::RIGHT_PAREN,
                                ParseMessage::ExpectRightParenAfterForClauses,
                            );
                            match increment {
                                Ok(increment) => if forward(tokens, c, c4) {
                                    let (body, c5) = statement(tokens, c4);
                                    match body {
                                        Ok(body) => (
                                            Ok(
                                                desugar(
                                                    initializer,
                                                    test,
                                                    increment,
                                                    body,
                                                    c5.next_id as u64,
                                                ),
                                            ),
                                            if test is None {
                                                bump(c5)
                                            } else {
                                                c5
                                            },
                                        ),
                                        Err(error) => (Err(error), c5),
                                    }
                                } else {
                                    (Err(arbitrary()), c4)
                                },
                                Err(error) => (Err(error), c4),
                            }
                        } else {
                            (Err(arbitrary()), c3)
                        },
                        Err(error) => (Err(error), c3),
                    }
                } else {
                    (Err(arbitrary()), c2)
                },
                Err(error) => (Err(error), c2),
            }
        },
        Err(error) => (Err(error), c1),
    }
}

/// The declarations of a block, up to its closing brace or the end.
pub open spec fn block_items(
    tokens: Seq<Token>,
    c: Cursor,
    statements: Seq<StatementView>,
) -> Parsed<Seq<StatementView>>
    decreases tokens.len() - c.current, 40int,
    when in_range(tokens, c) && well_formed(tokens)
{
    if !check(tokens, c, TokenType::RIGHT_BRACE) && !at_end(tokens, c) {
        let (item, c1) = declaration(tokens, c);
        match item {
            Ok(item) => if forward(tokens, c, c1) {
                block_items(tokens, c1, statements.push(item))
            } else {
                (Err(arbitrary()), c1)
            },
            Err(error) => (Err(error), c1),
        }
    } else {
        (Ok(statements), c)
    }
}

/// `block := "{" declaration* "}"`, from behind the opening brace.
pub open spec fn block(tokens: Seq<Token>, c: Cursor) -> Parsed<Seq<StatementView>>
    decreases tokens.len() - c.current, 41int,
    when in_range(tokens, c) && well_formed(tokens)
{
    let (statements, c1) = block_items(tokens, c, Seq::empty());
    match statements {
        Ok(statements) => {
            let (brace, c2) = consume(
                tokens,
                c1,
                TokenType::RIGHT_BRACE,
                ParseMessage::ExpectRightBraceAfterBlock,
            );
            match brace {
                Ok(_) => (Ok(statements), c2),
                Err(error) => (Err(error), c2),
            }
        },
        Err(error) => (Err(error), c1),
    }
}

/// `statement := printStmt | ifStmt | whileStmt | forStmt | returnStmt
///             | block | exprStmt`
pub open spec fn statement(tokens: Seq<Token>, c: Cursor) -> Parsed<StatementView>
    decreases tokens.len() - c.current, 25int,
    when in_range(tokens, c) && well_formed(tokens)
{
    let next = advance(tokens, c);
    match peek(tokens, c).token_type {
        TokenType::PRINT => print_statement(tokens, next),
        TokenType::IF => if_statement(tokens, next),
        TokenType::LEFT_BRACE => {
            let (statements, c1) = block(tokens, next);
            match statements {
                Ok(statements) => (Ok(StatementView::Block { statements }), c1),
                Err(error) => (Err(error), c1),
            }
        },
        TokenType::WHILE => while_statement(tokens, next),
        TokenType::FOR => for_statement(tokens, next),
        TokenType::RETURN => return_statement(tokens, next),
        _ => expression_statement(tokens, c),
    }
}

/// `varDecl := "var" IDENT ( "=" expression )? ";"`, from behind the
/// keyword.
pub open spec fn var_declaration(tokens: Seq<Token>, c: Cursor) -> Parsed<StatementView>
    decreases tokens.len() - c.current, 20int,
    when in_range(tokens, c) && well_formed(tokens)
{
    let (name, c1) = consume(tokens, c, TokenType::IDENTIFIER, ParseMessage::ExpectVariableName);
    match name {
        Ok(name) => {
            let (initializer, c2) = if check(tokens, c1, TokenType::EQUAL) {
                let (value, c2) = expression(tokens, advance(tokens, c1));
                match value {
                    Ok(e) => (Ok(Some(e)), c2),
                    Err(error) => (Err(error), c2),
                }
            } else {
                (Ok(None), c1)
            };
            match initializer {
                Ok(initializer) => {
                    let (semicolon, c3) = consume(
                        tokens,
                        c2,
                        TokenType::SEMICOLON,
                        ParseMessage::ExpectSemicolonAfterVariableDeclaration,
                    );
                    match semicolon {
                        Ok(_) => (Ok(StatementView::Variable { name, initializer }), c3),
                        Err(error) => (Err(error), c3),
                    }
                },
                Err(error) => (Err(error), c2),
            }
        },
        Err(error) => (Err(error), c1),
    }
}

/// The parameters that follow the first, each behind a comma. A parameter
/// beyond the limit is reported and taken all the same.
pub open spec fn parameters_rest(
    tokens: Seq<Token>,
    c: Cursor,
    parameters: Seq<Token>,
) -> Parsed<Seq<Token>>
    decreases tokens.len() - c.current,
    when in_range(tokens, c) && well_formed(tokens)
{
    if check(tokens, c, TokenType::COMMA) {
        let c1 = advance(tokens, c);
        let c2 = if parameters.len() >= MAX_ARITY {
            report(tokens, c1, peek(tokens, c1), ParseMessage::TooManyParameters)
        } else {
            c1
        };
        proof {
            synchronize_bounds(tokens, Cursor { diagnostics: c2.diagnostics, ..c1 });
        }
        let (parameter, c3) = consume(
            tokens,
            c2,
            TokenType::IDENTIFIER,
            ParseMessage::ExpectParameterName,
        );
        match parameter {
            Ok(parameter) => parameters_rest(tokens, c3, parameters.push(parameter)),
            Err(error) => (Err(error), c3),
        }
    } else {
        (Ok(parameters), c)
    }
}

/// `params? ")"`, from behind the opening parenthesis.
pub open spec fn parameters(tokens: Seq<Token>, c: Cursor) -> Parsed<Seq<Token>> {
    let (parameters, c2) = if check(tokens, c, TokenType::RIGHT_PAREN) {
        (Ok(Seq::empty()), c)
    } else {
        let (first, c1) = consume(
            tokens,
            c,
            TokenType::IDENTIFIER,
            ParseMessage::ExpectParameterName,
        );
        match first {
            Ok(first) => parameters_rest(tokens, c1, seq![first]),
            Err(error) => (Err(error), c1),
        }
    };
    match parameters {
        Ok(parameters) => {
            let (paren, c3) = consume(
                tokens,
                c2,
                TokenType::RIGHT_PAREN,
                ParseMessage::ExpectRightParenAfterParameters,
            );
            match paren {
                Ok(_) => (Ok(parameters), c3),
                Err(error) => (Err(error), c3),
            }
        },
        Err(error) => (Err(error), c2),
    }
}

/// The name and the parameters of a function, up to the opening brace of
/// its body.
pub open spec fn signature(
    tokens: Seq<Token>,
    c: Cursor,
    kind: FunctionKind,
) -> Parsed<(Token, Seq<Token>)> {
    let (name, c1) = consume(tokens, c, TokenType::IDENTIFIER, ParseMessage::ExpectName(kind));
    match name {
        Ok(name) => {
            let (paren, c2) = consume(
                tokens,
                c1,
                TokenType::LEFT_PAREN,
                ParseMessage::ExpectLeftParenAfterName(kind),
            );
            match paren {
                Ok(_) => {
                    let (parameters, c3) = parameters(tokens, c2);
                    match parameters {
                        Ok(parameters) => {
                            let (brace, c4) = consume(
                                tokens,
                                c3,
                                TokenType::LEFT_BRACE,
                                ParseMessage::ExpectLeftBraceBeforeBody(kind),
                            );
                            match brace {
                                Ok(_) => (Ok((name, parameters)), c4),
                                Err(error) => (Err(error), c4),
                            }
                        },
                        Err(error) => (Err(error), c3),
                    }
                },
                Err(error) => (Err(error), c2),
            }
        },
        Err(error) => (Err(error), c1),
    }
}

/// `function := IDENT "(" params? ")" block`
pub open spec fn fun_declaration(
    tokens: Seq<Token>,
    c: Cursor,
    kind: FunctionKind,
) -> Parsed<FunctionView>
    decreases tokens.len() - c.current, 42int,
    when in_range(tokens, c) && well_formed(tokens)
{
    let (head, c1) = signature(tokens, c, kind);
    match head {
        Ok(head) => if forward(tokens, c, c1) {
            let (body, c2) = block(tokens, c1);
            match body {
                Ok(body) => (Ok(FunctionView { name: head.0, parameters: head.1, body }), c2),
                Err(error) => (Err(error), c2),
            }
        } else {
            (Err(arbitrary()), c1)
        },
        Err(error) => (Err(error), c1),
    }
}

/// The methods of a class, up to its closing brace or the end.
pub open spec fn class_methods(
    tokens: Seq<Token>,
    c: Cursor,
    methods: Seq<FunctionView>,
) -> Parsed<Seq<FunctionView>>
    decreases tokens.len() - c.current, 43int,
    when in_range(tokens, c) && well_formed(tokens)
{
    if !at_end(tokens, c) && !check(tokens, c, TokenType::RIGHT_BRACE) {
        let (method, c1) = fun_declaration(tokens, c, FunctionKind::Method);
        match method {
            Ok(method) => if forward(tokens, c, c1) {
                class_methods(tokens, c1, methods.push(method))
            } else {
                (Err(arbitrary()), c1)
            },
            Err(error) => (Err(error), c1),
        }
    } else {
        (Ok(methods), c)
    }
}

/// `( "<" IDENT )?`: the superclass of a class, if it names one.
pub open spec fn superclass(tokens: Seq<Token>, c: Cursor) -> Parsed<Option<ExpressionView>> {
    if check(tokens, c, TokenType::LESS) {
        let (name, c1) = consume(
            tokens,
            advance(tokens, c),
            TokenType::IDENTIFIER,
            ParseMessage::ExpectSuperclassName,
        );
        match name {
            Ok(name) => (
                Ok(Some(ExpressionView::Variable { variable: name, id: c1.next_id as u64 })),
                bump(c1),
            ),
            Err(error) => (Err(error), c1),
        }
    } else {
        (Ok(None), c)
    }
}

/// The name and the superclass of a class, up to the opening brace of its
/// body.
pub open spec fn class_head(
    tokens: Seq<Token>,
    c: Cursor,
) -> Parsed<(Token, Option<ExpressionView>)> {
    let (name, c1) = consume(tokens, c, TokenType::IDENTIFIER, ParseMessage::ExpectClassName);
    match name {
        Ok(name) => {
            let (super_class, c2) = superclass(tokens, c1);
            match super_class {
                Ok(super_class) => {
                    let (brace, c3) = consume(
                        tokens,
                        c2,
                        TokenType::LEFT_BRACE,
                        ParseMessage::ExpectLeftBraceBeforeClassBody,
                    );
                    match brace {
                        Ok(_) => (Ok((name, super_class)), c3),
                        Err(error) => (Err(error), c3),
                    }
                },
                Err(error) => (Err(error), c2),
            }
        },
        Err(error) => (Err(error), c1),
    }
}

/// `classDecl := "class" IDENT ( "<" IDENT )? "{" function* "}"`, from
/// behind the keyword.
pub open spec fn class_declaration(tokens: Seq<Token>, c: Cursor) -> Parsed<StatementView>
    decreases tokens.len() - c.current, 44int,
    when in_range(tokens, c) && well_formed(tokens)
{
    let (head, c1) = class_head(tokens, c);
    match head {
        Ok(head) => if forward(tokens, c, c1) {
            let (methods, c2) = class_methods(tokens, c1, Seq::empty());
            match methods {
                Ok(methods) => {
                    let (brace, c3) = consume(
                        tokens,
                        c2,
                        TokenType::RIGHT_BRACE,
                        ParseMessage::ExpectRightBraceAfterClassBody,
                    );
                    match brace {
                        Ok(_) => (
                            Ok(StatementView::Class { name: head.0, super_class: head.1, methods }),
                            c3,
                        ),
                        Err(error) => (Err(error), c3),
                    }
                },
                Err(error) => (Err(error), c2),
            }
        } else {
            (Err(arbitrary()), c1)
        },
        Err(error) => (Err(error), c1),
    }
}

/// `declaration := varDecl | funDecl | classDecl | statement`
pub open spec fn declaration(tokens: Seq<Token>, c: Cursor) -> Parsed<StatementView>
    decreases tokens.len() - c.current, 30int,
    when in_range(tokens, c) && well_formed(tokens)
{
    let next = advance(tokens, c);
    match peek(tokens, c).token_type {
        TokenType::VAR => var_declaration(tokens, next),
        TokenType::FUN => {
            let (function, c1) = fun_declaration(tokens, next, FunctionKind::Function);
            match function {
                Ok(function) => (Ok(StatementView::Function { function }), c1),
                Err(error) => (Err(error), c1),
            }
        },
        TokenType::CLASS => class_declaration(tokens, next),
        _ => statement(tokens, c),
    }
}

/// `program := declaration*`. A declaration that fails is left out, and
/// parsing goes on from where recovery stopped.
pub open spec fn program(
    tokens: Seq<Token>,
    c: Cursor,
    statements: Seq<StatementView>,
) -> (Seq<StatementView>, Cursor)
    decreases tokens.len() - c.current, 50int,
    when in_range(tokens, c) && well_formed(tokens)
{
    if at_end(tokens, c) {
        (statements, c)
    } else {
        let (item, c1) = declaration(tokens, c);
        if forward(tokens, c, c1) {
            match item {
                Ok(item) => program(tokens, c1, statements.push(item)),
                Err(_) => program(tokens, c1, statements),
            }
        } else {
            (statements, c1)
        }
    }
}

} // verus!
