//! The recursive-descent parser.
//!
//! Every method is proved to compute the production of the same name in
//! [`crate::grammar`]. Errors are collected in the parser; after each the
//! parser recovers in panic mode and goes on.
//!
//! The names of a tree are identifiers of the text. So where no identifier
//! among the tokens is spelled `this`, as in every sequence that the
//! scanner makes, no tree that a production hands back declares or assigns
//! a name `this`.

use vstd::prelude::*;
use crate::token::{Token, TokenType, worded};
use crate::value::LiteralValue;
use crate::ast::{
    AssignmentExpression, BinaryExpression, BlockStatement, CallExpression, ClassStatement,
    Expression, ExpressionStatement, ExpressionView, ForStatement, FunctionStatement, FunctionView,
    GetExpression, Grouping, IfStatement, Literal, LogicalExpression, PrintStatement,
    ReturnStatement, SetExpression, Statement, StatementView, SuperExpression, ThisExpression,
    UnaryExpression, VariableExpression, VariableStatement, WhileStatement, expression_ids,
    expression_view, expressions_ids, fresh, fresh_front, fresh_join, fresh_push, fresh_widen,
    function_ids, functions_ids, optional_expression_ids, statement_ids, statements_ids,
    expressions_view, function_view, functions_view, statement_view, statements_view,
    variable_view, optional_expression_view,
};
use crate::grammar;
use crate::text::{decimal, write_decimal, write_text};
use vstd::string::StringExecFns;
use crate::grammar::{BinaryLevel, Cursor, FunctionKind, ParseError, ParseMessage, MAX_ARITY};
use crate::construction::{
    plain_expression, plain_expressions, plain_expressions_push, plain_function, plain_functions,
    plain_functions_push, plain_optional, plain_statement, plain_statements,
    plain_statements_push,
};

verus! {

/// The parser: a token sequence that ends in `EOF`, a cursor into it, the
/// identity of the next expression node, and the errors reported so far.
pub struct Parser {
    pub tokens: Vec<Token>,
    pub current: usize,
    pub next_id: u64,
    pub diagnostics: Vec<ParseError>,
}

impl Clone for ParseError {
    fn clone(&self) -> (r: Self)
        ensures
            r == *self,
    {
        ParseError { token: self.token.clone(), message: self.message }
    }
}

/// The view of the result of parsing an expression.
pub open spec fn expression_result(
    r: Result<Expression, ParseError>,
) -> Result<ExpressionView, ParseError> {
    match r {
        Ok(e) => Ok(expression_view(e)),
        Err(error) => Err(error),
    }
}

/// The view of the result of parsing a list of expressions.
pub open spec fn expressions_result(
    r: Result<Vec<Expression>, ParseError>,
) -> Result<Seq<ExpressionView>, ParseError> {
    match r {
        Ok(e) => Ok(expressions_view(e@)),
        Err(error) => Err(error),
    }
}

/// The view of the result of parsing a statement.
pub open spec fn statement_result(
    r: Result<Statement, ParseError>,
) -> Result<StatementView, ParseError> {
    match r {
        Ok(s) => Ok(statement_view(s)),
        Err(error) => Err(error),
    }
}

/// The view of the result of parsing a list of statements.
pub open spec fn statements_result(
    r: Result<Vec<Statement>, ParseError>,
) -> Result<Seq<StatementView>, ParseError> {
    match r {
        Ok(s) => Ok(statements_view(s@)),
        Err(error) => Err(error),
    }
}

/// The view of the result of parsing a function declaration.
pub open spec fn function_result(
    r: Result<FunctionStatement, ParseError>,
) -> Result<FunctionView, ParseError> {
    match r {
        Ok(f) => Ok(function_view(f)),
        Err(error) => Err(error),
    }
}

/// The identities of the nodes of an expression.
pub open spec fn ids_of(e: Expression) -> Seq<u64> {
    expression_ids(expression_view(e))
}

/// The identities of the nodes of a list of expressions.
pub open spec fn ids_of_all(list: Seq<Expression>) -> Seq<u64> {
    expressions_ids(expressions_view(list), list.len() as int)
}

/// The identities of the expression nodes of a statement.
pub open spec fn ids_in(s: Statement) -> Seq<u64> {
    statement_ids(statement_view(s))
}

/// The identities of the expression nodes of a list of statements.
pub open spec fn ids_in_all(list: Seq<Statement>) -> Seq<u64> {
    statements_ids(statements_view(list), list.len() as int)
}

/// Whether the tree that a production made holds identities that are
/// unique and that the parser gave out during the production.
pub open spec fn numbered(before: Parser, after: Parser, ids: Seq<u64>) -> bool {
    fresh(ids, before.next_id as int, after.next_id as int)
}

/// Whether an expression neither declares nor assigns a name `this` and,
/// where it is a variable, is not the variable `this`: so that an
/// assignment to it is to no name `this` either.
pub open spec fn named(e: Expression) -> bool {
    &&& plain_expression(e)
    &&& match e {
        Expression::Variable(n) => n.variable.token_value@ != "this"@,
        _ => true,
    }
}

/// Whether a statement that may be left out neither declares nor assigns a
/// name `this`.
pub open spec fn plain_branch(s: Option<Box<Statement>>) -> bool {
    match s {
        Some(s) => plain_statement(*s),
        None => true,
    }
}

/// Whether errors that were reported are still reported, in their places:
/// whether a sequence of errors begins with an earlier one.
pub open spec fn reported(before: Seq<ParseError>, after: Seq<ParseError>) -> bool {
    &&& before.len() <= after.len()
    &&& forall|i: int| 0 <= i < before.len() ==> #[trigger] after[i] == before[i]
}

/// How a parser stands to an earlier state of itself after a production:
/// it is well formed, over the same tokens, still reports every error
/// that it had reported, has given out no more identities than it has
/// passed tokens, has moved forward if the production succeeded, and has
/// moved forward or reached the end if it failed.
pub open spec fn follows(before: Parser, after: Parser, ok: bool) -> bool {
    &&& after.wf()
    &&& after.tokens == before.tokens
    &&& reported(before.diagnostics@, after.diagnostics@)
    &&& after.current - after.next_id >= before.current - before.next_id
    &&& after.current >= before.current
    &&& after.next_id >= before.next_id
    &&& ok ==> after.current > before.current
    &&& !ok ==> after.current > before.current || grammar::at_end(after.tokens@, after.cursor())
}

impl Parser {
    /// The parser's cursor.
    pub open spec fn cursor(&self) -> Cursor {
        Cursor {
            current: self.current as int,
            next_id: self.next_id as int,
            diagnostics: self.diagnostics@,
        }
    }

    /// The parser's invariant: the tokens end in `EOF`, the cursor stands
    /// on a token, and no more identities were given out than tokens were
    /// passed.
    pub open spec fn wf(&self) -> bool {
        &&& grammar::well_formed(self.tokens@)
        &&& self.current < self.tokens.len()
        &&& self.next_id <= self.current
    }

    /// A parser at the start of a token sequence that ends in `EOF`.
    pub fn new(tokens: Vec<Token>) -> (r: Parser)
        requires
            grammar::well_formed(tokens@),
        ensures
            r.wf(),
            r.tokens == tokens,
            r.current == 0,
            r.next_id == 0,
            r.diagnostics@.len() == 0,
    {
        Parser { tokens, current: 0, next_id: 0, diagnostics: Vec::new() }
    }

    /// The token under the cursor.
    pub fn peek(&self) -> (r: &Token)
        requires
            self.wf(),
        ensures
            *r == grammar::peek(self.tokens@, self.cursor()),
    {
        &self.tokens[self.current]
    }

    /// The token in front of the cursor.
    pub fn previous(&self) -> (r: &Token)
        requires
            self.wf(),
            self.current >= 1,
        ensures
            *r == grammar::previous(self.tokens@, self.cursor()),
    {
        &self.tokens[self.current - 1]
    }

    /// Whether the token under the cursor is of the given kind.
    pub fn check(&self, token_type: TokenType) -> (r: bool)
        requires
            self.wf(),
        ensures
            r == grammar::check(self.tokens@, self.cursor(), token_type),
    {
        self.tokens[self.current].token_type == token_type
    }

    /// Whether the cursor stands on `EOF`.
    pub fn is_at_end(&self) -> (r: bool)
        requires
            self.wf(),
        ensures
            r == grammar::at_end(self.tokens@, self.cursor()),
    {
        self.check(TokenType::EOF)
    }

    /// Move the cursor one token on, unless it stands on `EOF`.
    pub fn advance(&mut self)
        requires
            old(self).wf(),
        ensures
            final(self).cursor() == grammar::advance(old(self).tokens@, old(self).cursor()),
            follows(*old(self), *final(self), !grammar::at_end(old(self).tokens@, old(self).cursor())),
    {
        if !self.is_at_end() {
            self.current += 1;
        }
    }

    /// Move past the token under the cursor if it is of one of the given
    /// kinds, and say whether it was.
    pub fn match_tokens(&mut self, token_types: &Vec<TokenType>) -> (r: bool)
        requires
            old(self).wf(),
        ensures
            r == exists|i: int|
                0 <= i < token_types@.len() && grammar::check(
                    old(self).tokens@,
                    old(self).cursor(),
                    #[trigger] token_types@[i],
                ),
            final(self).cursor() == if r {
                grammar::advance(old(self).tokens@, old(self).cursor())
            } else {
                old(self).cursor()
            },
            final(self).wf(),
            final(self).tokens == old(self).tokens,
            reported(old(self).diagnostics@, final(self).diagnostics@),
            final(self).next_id == old(self).next_id,
            final(self).current >= old(self).current,
            final(self).next_id >= old(self).next_id,
    {
        let mut i: usize = 0;
        while i < token_types.len()
            invariant
                *self == *old(self),
                self.wf(),
                i <= token_types@.len(),
                forall|j: int|
                    0 <= j < i ==> !grammar::check(
                        self.tokens@,
                        self.cursor(),
                        #[trigger] token_types@[j],
                    ),
            decreases token_types@.len() - i,
        {
            if self.check(token_types[i]) {
                self.advance();
                return true;
            }
            i += 1;
        }
        false
    }

    /// Panic-mode recovery: step over the token under the cursor, then
    /// discard tokens until a semicolon has just been passed or the next
    /// token begins a statement.
    pub fn synchronize(&mut self)
        requires
            old(self).wf(),
        ensures
            final(self).cursor() == grammar::synchronize(old(self).tokens@, old(self).cursor()),
            follows(*old(self), *final(self), false),
    {
        proof {
            grammar::synchronize_bounds(self.tokens@, self.cursor());
        }
        if self.is_at_end() {
            return ;
        }
        self.current += 1;
        loop
            invariant
                self.wf(),
                self.tokens == old(self).tokens,
                self.next_id == old(self).next_id,
                self.diagnostics == old(self).diagnostics,
                self.current >= 1,
                self.current > old(self).current,
                grammar::skip(self.tokens@, self.current as int) == grammar::skip(
                    old(self).tokens@,
                    old(self).current + 1,
                ),
            ensures
                self.current == grammar::skip(old(self).tokens@, old(self).current + 1),
            decreases self.tokens.len() - self.current,
        {
            if self.is_at_end() {
                break ;
            }
            if self.previous().token_type == TokenType::SEMICOLON {
                break ;
            }
            match self.peek().token_type {
                TokenType::CLASS
                | TokenType::FUN
                | TokenType::VAR
                | TokenType::FOR
                | TokenType::IF
                | TokenType::WHILE
                | TokenType::PRINT
                | TokenType::RETURN => {
                    break ;
                },
                _ => {},
            }
            self.current += 1;
        }
    }

    /// Report an error at a token, then recover.
    pub fn error(&mut self, token: Token, message: ParseMessage) -> (r: ParseError)
        requires
            old(self).wf(),
        ensures
            r == (ParseError { token, message }),
            final(self).cursor() == grammar::report(
                old(self).tokens@,
                old(self).cursor(),
                token,
                message,
            ),
            follows(*old(self), *final(self), false),
    {
        let error = ParseError { token, message };
        self.diagnostics.push(error.clone());
        self.synchronize();
        error
    }

    /// Take the token under the cursor if it is of the given kind; report
    /// the message at it if it is not.
    pub fn consume(
        &mut self,
        token_type: TokenType,
        message: ParseMessage,
    ) -> (r: Result<Token, ParseError>)
        requires
            old(self).wf(),
        ensures
            (r, final(self).cursor()) == grammar::consume(
                old(self).tokens@,
                old(self).cursor(),
                token_type,
                message,
            ),
            follows(*old(self), *final(self), r is Ok && token_type != TokenType::EOF),
    {
        let token = self.peek().clone();
        if self.check(token_type) {
            self.advance();
            return Ok(token);
        }
        Err(self.error(token, message))
    }

    /// Give out the next identity.
    fn fresh_id(&mut self) -> (r: u64)
        requires
            old(self).wf(),
            old(self).next_id < old(self).current,
        ensures
            r == old(self).next_id,
            final(self).cursor() == grammar::bump(old(self).cursor()),
            final(self).wf(),
            final(self).tokens == old(self).tokens,
            reported(old(self).diagnostics@, final(self).diagnostics@),
            final(self).current == old(self).current,
            final(self).next_id == old(self).next_id + 1,
    {
        let id = self.next_id;
        self.next_id = self.next_id + 1;
        id
    }
}

/// The views of a sequence of expressions are as many as the expressions.
pub proof fn expressions_view_len(s: Seq<Expression>)
    ensures
        expressions_view(s).len() == s.len(),
    decreases s.len(),
{
    if s.len() > 0 {
        expressions_view_len(s.drop_last());
    }
}

/// The view of a sequence with one more expression is the view of the
/// sequence with the view of that expression behind it.
pub proof fn expressions_view_push(s: Seq<Expression>, e: Expression)
    ensures
        expressions_view(s.push(e)) == expressions_view(s).push(expression_view(e)),
{
    assert(s.push(e).drop_last() =~= s);
}

/// The view of a sequence with one more statement is the view of the
/// sequence with the view of that statement behind it.
pub proof fn statements_view_push(s: Seq<Statement>, e: Statement)
    ensures
        statements_view(s.push(e)) == statements_view(s).push(statement_view(e)),
{
    assert(s.push(e).drop_last() =~= s);
}

/// The view of a sequence with one more function is the view of the
/// sequence with the view of that function behind it.
pub proof fn functions_view_push(s: Seq<FunctionStatement>, e: FunctionStatement)
    ensures
        functions_view(s.push(e)) == functions_view(s).push(function_view(e)),
{
    assert(s.push(e).drop_last() =~= s);
}

/// The view of two statements in a row.
pub proof fn statements_view_pair(a: Statement, b: Statement)
    ensures
        statements_view(seq![a, b]) == seq![statement_view(a), statement_view(b)],
{
    let none = Seq::<Statement>::empty();
    assert(statements_view(none) =~= Seq::empty());
    statements_view_push(none, a);
    statements_view_push(none.push(a), b);
    assert(none.push(a).push(b) =~= seq![a, b]);
    assert(statements_view(none).push(statement_view(a)).push(statement_view(b)) =~= seq![
        statement_view(a),
        statement_view(b),
    ]);
}

/// Two statements in a row that neither declare nor assign a name `this`
/// are a list that does neither.
pub proof fn plain_statements_pair(a: Statement, b: Statement)
    requires
        plain_statement(a),
        plain_statement(b),
    ensures
        plain_statements(seq![a, b], 0),
{
    let none = Seq::<Statement>::empty();
    plain_statements_push(none, a, 0);
    plain_statements_push(none.push(a), b, 0);
    assert(none.push(a).push(b) =~= seq![a, b]);
}

/// The identities of a list with one more expression are those of the list
/// with those of that expression behind them.
pub proof fn ids_of_all_push(s: Seq<Expression>, e: Expression)
    ensures
        ids_of_all(s.push(e)) == ids_of_all(s) + ids_of(e),
{
    expressions_view_push(s, e);
    expressions_view_len(s);
    expressions_ids_front(expressions_view(s), expression_view(e), s.len() as int);
}

/// The identities of the first expressions of a list are those that they
/// had before another expression came behind them.
pub proof fn expressions_ids_front(list: Seq<ExpressionView>, e: ExpressionView, count: int)
    requires
        0 <= count <= list.len(),
    ensures
        expressions_ids(list.push(e), count) == expressions_ids(list, count),
    decreases count,
{
    if count > 0 {
        expressions_ids_front(list, e, count - 1);
    }
}

/// The same, for statements.
pub proof fn statements_ids_front(list: Seq<StatementView>, e: StatementView, count: int)
    requires
        0 <= count <= list.len(),
    ensures
        statements_ids(list.push(e), count) == statements_ids(list, count),
    decreases count,
{
    if count > 0 {
        statements_ids_front(list, e, count - 1);
    }
}

/// The same, for functions.
pub proof fn functions_ids_front(list: Seq<FunctionView>, e: FunctionView, count: int)
    requires
        0 <= count <= list.len(),
    ensures
        functions_ids(list.push(e), count) == functions_ids(list, count),
    decreases count,
{
    if count > 0 {
        functions_ids_front(list, e, count - 1);
    }
}

/// The views of a sequence of statements are as many as the statements.
pub proof fn statements_view_len(s: Seq<Statement>)
    ensures
        statements_view(s).len() == s.len(),
    decreases s.len(),
{
    if s.len() > 0 {
        statements_view_len(s.drop_last());
    }
}

/// The views of a sequence of functions are as many as the functions.
pub proof fn functions_view_len(s: Seq<FunctionStatement>)
    ensures
        functions_view(s).len() == s.len(),
    decreases s.len(),
{
    if s.len() > 0 {
        functions_view_len(s.drop_last());
    }
}

/// The identities of a list with one more statement are those of the list
/// with those of that statement behind them.
pub proof fn ids_in_all_push(s: Seq<Statement>, e: Statement)
    ensures
        ids_in_all(s.push(e)) == ids_in_all(s) + ids_in(e),
{
    statements_view_push(s, e);
    statements_view_len(s);
    statements_ids_front(statements_view(s), statement_view(e), s.len() as int);
}

/// Whether a token kind is an operator of the level.
pub fn is_operator(level: BinaryLevel, t: TokenType) -> (r: bool)
    ensures
        r == grammar::is_operator(level, t),
{
    match level {
        BinaryLevel::Factor => t == TokenType::SLASH || t == TokenType::STAR,
        BinaryLevel::Term => t == TokenType::MINUS || t == TokenType::PLUS,
        BinaryLevel::Comparison => t == TokenType::LESS || t == TokenType::LESS_EQUAL || t
            == TokenType::GREATER || t == TokenType::GREATER_EQUAL,
        BinaryLevel::Equality => t == TokenType::BANG_EQUAL || t == TokenType::EQUAL_EQUAL,
    }
}

impl Parser {
    /// A literal node for a constant, with the next identity.
    fn literal(&mut self, value: LiteralValue) -> (r: Expression)
        requires
            old(self).wf(),
            old(self).next_id < old(self).current,
        ensures
            expression_view(r) == grammar::literal(value, old(self).cursor()),
            final(self).cursor() == grammar::bump(old(self).cursor()),
            final(self).wf(),
            final(self).tokens == old(self).tokens,
            reported(old(self).diagnostics@, final(self).diagnostics@),
            final(self).current == old(self).current,
            final(self).next_id == old(self).next_id + 1,
            numbered(*old(self), *final(self), ids_of(r)),
            named(r),
    {
        let id = self.fresh_id();
        Expression::Literal(Literal { value, id })
    }

    /// `primary := NUMBER | STRING | "true" | "false" | "nil"
    ///           | "(" expression ")" | IDENT | "this" | "super" "." IDENT`
    pub fn primary(&mut self) -> (r: Result<Expression, ParseError>)
        requires
            old(self).wf(),
        ensures
            (expression_result(r), final(self).cursor()) == grammar::primary(
                old(self).tokens@,
                old(self).cursor(),
            ),
            follows(*old(self), *final(self), r is Ok),
            r matches Ok(e) ==> numbered(*old(self), *final(self), ids_of(e)),
            r matches Ok(e) ==> (worded(old(self).tokens@) ==> named(e)),
        decreases old(self).tokens.len() - old(self).current, 0int,
    {
        let token = self.peek().clone();
        match token.token_type {
            TokenType::FALSE => {
                self.advance();
                Ok(self.literal(LiteralValue::Boolean(false)))
            },
            TokenType::TRUE => {
                self.advance();
                Ok(self.literal(LiteralValue::Boolean(true)))
            },
            TokenType::NIL => {
                self.advance();
                Ok(self.literal(LiteralValue::Nil))
            },
            TokenType::STRING => {
                self.advance();
                Ok(self.literal(LiteralValue::String(token.token_value)))
            },
            TokenType::NUMBER => {
                self.advance();
                Ok(self.literal(LiteralValue::Number(token.token_value)))
            },
            TokenType::LEFT_PAREN => {
                self.advance();
                match self.expression() {
                    Ok(expression) => {
                        match self.consume(
                            TokenType::RIGHT_PAREN,
                            ParseMessage::ExpectRightParenAfterExpression,
                        ) {
                            Ok(_) => {
                                let id = self.fresh_id();
                                proof {
                                    fresh_push(ids_of(expression), old(self).next_id as int, id);
                                }
                                Ok(
                                    Expression::Grouping(
                                        Grouping { expression: Box::new(expression), id },
                                    ),
                                )
                            },
                            Err(error) => Err(error),
                        }
                    },
                    Err(error) => Err(error),
                }
            },
            TokenType::IDENTIFIER => {
                self.advance();
                let id = self.fresh_id();
                Ok(Expression::Variable(VariableExpression { variable: token, id }))
            },
            TokenType::THIS => {
                self.advance();
                let id = self.fresh_id();
                Ok(Expression::This(ThisExpression { value: token, id }))
            },
            TokenType::SUPER => {
                self.advance();
                match self.consume(TokenType::DOT, ParseMessage::ExpectDotAfterSuper) {
                    Ok(_) => {
                        match self.consume(
                            TokenType::IDENTIFIER,
                            ParseMessage::ExpectSuperclassMethodName,
                        ) {
                            Ok(method) => {
                                let id = self.fresh_id();
                                Ok(
                                    Expression::Super(
                                        SuperExpression { keyword: token, method, id },
                                    ),
                                )
                            },
                            Err(error) => Err(error),
                        }
                    },
                    Err(error) => Err(error),
                }
            },
            _ => Err(self.error(token, ParseMessage::ExpectExpression)),
        }
    }

    /// The arguments that follow the first, each behind a comma. The
    /// identities of the arguments so far are unique from `low` on.
    fn arguments_rest(
        &mut self,
        arguments: Vec<Expression>,
        Ghost(low): Ghost<int>,
    ) -> (r: Result<Vec<Expression>, ParseError>)
        requires
            old(self).wf(),
            fresh(ids_of_all(arguments@), low, old(self).next_id as int),
            worded(old(self).tokens@) ==> plain_expressions(arguments@, 0),
            low <= old(self).next_id,
        ensures
            (expressions_result(r), final(self).cursor()) == grammar::arguments_rest(
                old(self).tokens@,
                old(self).cursor(),
                expressions_view(arguments@),
            ),
            final(self).wf(),
            final(self).tokens == old(self).tokens,
            reported(old(self).diagnostics@, final(self).diagnostics@),
            final(self).current - final(self).next_id >= old(self).current - old(self).next_id,
            final(self).current >= old(self).current,
            final(self).next_id >= old(self).next_id,
            r matches Ok(all) ==> fresh(ids_of_all(all@), low, final(self).next_id as int),
            r matches Ok(all) ==> (worded(old(self).tokens@) ==> plain_expressions(all@, 0)),
        decreases old(self).tokens.len() - old(self).current, 1int,
    {
        let mut arguments = arguments;
        if self.check(TokenType::COMMA) {
            self.advance();
            proof {
                expressions_view_len(arguments@);
            }
            if arguments.len() >= MAX_ARITY {
                let token = self.peek().clone();
                let _ = self.error(token, ParseMessage::TooManyArguments);
            }
            match self.expression() {
                Ok(e) => {
                    proof {
                        expressions_view_push(arguments@, e);
                        ids_of_all_push(arguments@, e);
                        if worded(self.tokens@) {
                            plain_expressions_push(arguments@, e, 0);
                        }
                        fresh_join(
                            ids_of_all(arguments@),
                            low,
                            old(self).next_id as int,
                            ids_of(e),
                            old(self).next_id as int,
                            self.next_id as int,
                        );
                    }
                    arguments.push(e);
                    self.arguments_rest(arguments, Ghost(low))
                },
                Err(error) => Err(error),
            }
        } else {
            Ok(arguments)
        }
    }

    /// The rest of a call, from behind its opening parenthesis. The
    /// identities of the callee are unique from `low` on.
    fn finish_call(
        &mut self,
        callee: Expression,
        Ghost(low): Ghost<int>,
    ) -> (r: Result<Expression, ParseError>)
        requires
            old(self).wf(),
            fresh(ids_of(callee), low, old(self).next_id as int),
            worded(old(self).tokens@) ==> named(callee),
            low <= old(self).next_id,
        ensures
            (expression_result(r), final(self).cursor()) == grammar::finish_call(
                old(self).tokens@,
                old(self).cursor(),
                expression_view(callee),
            ),
            follows(*old(self), *final(self), r is Ok),
            final(self).next_id >= old(self).next_id,
            r matches Ok(e) ==> fresh(ids_of(e), low, final(self).next_id as int),
            r matches Ok(e) ==> (worded(old(self).tokens@) ==> named(e)),
        decreases old(self).tokens.len() - old(self).current, 60int,
    {
        let mut arguments: Vec<Expression> = Vec::new();
        assert(expressions_view(arguments@) =~= Seq::empty());
        let ghost start = self.next_id as int;
        if !self.check(TokenType::RIGHT_PAREN) {
            match self.expression() {
                Ok(e) => {
                    proof {
                        expressions_view_push(arguments@, e);
                        assert(expressions_view(arguments@).push(expression_view(e)) =~= seq![
                            expression_view(e),
                        ]);
                        ids_of_all_push(arguments@, e);
                        assert(ids_of_all(arguments@) + ids_of(e) =~= ids_of(e));
                        if worded(self.tokens@) {
                            plain_expressions_push(arguments@, e, 0);
                        }
                    }
                    arguments.push(e);
                    match self.arguments_rest(arguments, Ghost(start)) {
                        Ok(all) => {
                            arguments = all;
                        },
                        Err(error) => {
                            return Err(error);
                        },
                    }
                },
                Err(error) => {
                    return Err(error);
                },
            }
        }
        match self.consume(TokenType::RIGHT_PAREN, ParseMessage::ExpectRightParenAfterArguments) {
            Ok(paren) => {
                let id = self.fresh_id();
                proof {
                    expressions_view_len(arguments@);
                    fresh_join(ids_of(callee), low, start, ids_of_all(arguments@), start, id as int);
                    fresh_push(ids_of(callee) + ids_of_all(arguments@), low, id);
                    assert(worded(self.tokens@) ==> plain_expressions(arguments@, 0));
                    assert(worded(self.tokens@) ==> plain_expression(callee));
                }
                Ok(
                    Expression::Call(
                        CallExpression { callee: Box::new(callee), paren, arguments, id },
                    ),
                )
            },
            Err(error) => Err(error),
        }
    }

    /// The calls and property reads that follow a primary expression. The
    /// identities of the expression so far are unique from `low` on.
    fn call_rest(
        &mut self,
        e: Expression,
        Ghost(low): Ghost<int>,
    ) -> (r: Result<Expression, ParseError>)
        requires
            old(self).wf(),
            fresh(ids_of(e), low, old(self).next_id as int),
            worded(old(self).tokens@) ==> named(e),
            low <= old(self).next_id,
        ensures
            (expression_result(r), final(self).cursor()) == grammar::call_rest(
                old(self).tokens@,
                old(self).cursor(),
                expression_view(e),
            ),
            final(self).wf(),
            final(self).tokens == old(self).tokens,
            reported(old(self).diagnostics@, final(self).diagnostics@),
            final(self).current - final(self).next_id >= old(self).current - old(self).next_id,
            final(self).current >= old(self).current,
            final(self).next_id >= old(self).next_id,
            r is Err ==> follows(*old(self), *final(self), false),
            r matches Ok(all) ==> fresh(ids_of(all), low, final(self).next_id as int),
            r matches Ok(all) ==> (worded(old(self).tokens@) ==> named(all)),
        decreases old(self).tokens.len() - old(self).current, 1int,
    {
        if self.check(TokenType::LEFT_PAREN) {
            self.advance();
            match self.finish_call(e, Ghost(low)) {
                Ok(called) => self.call_rest(called, Ghost(low)),
                Err(error) => Err(error),
            }
        } else if self.check(TokenType::DOT) {
            self.advance();
            match self.consume(TokenType::IDENTIFIER, ParseMessage::ExpectPropertyName) {
                Ok(name) => {
                    let id = self.fresh_id();
                    proof {
                        fresh_push(ids_of(e), low, id);
                    }
                    self.call_rest(
                        Expression::Get(GetExpression { expression: Box::new(e), name, id }),
                        Ghost(low),
                    )
                },
                Err(error) => Err(error),
            }
        } else {
            Ok(e)
        }
    }

    /// `call := primary ( "(" args? ")" | "." IDENT )*`
    pub fn call(&mut self) -> (r: Result<Expression, ParseError>)
        requires
            old(self).wf(),
        ensures
            (expression_result(r), final(self).cursor()) == grammar::call(
                old(self).tokens@,
                old(self).cursor(),
            ),
            follows(*old(self), *final(self), r is Ok),
            r matches Ok(e) ==> numbered(*old(self), *final(self), ids_of(e)),
            r matches Ok(e) ==> (worded(old(self).tokens@) ==> named(e)),
        decreases old(self).tokens.len() - old(self).current, 2int,
    {
        match self.primary() {
            Ok(e) => self.call_rest(e, Ghost(old(self).next_id as int)),
            Err(error) => Err(error),
        }
    }

    /// `unary := ( "!" | "-" ) unary | call`
    pub fn unary(&mut self) -> (r: Result<Expression, ParseError>)
        requires
            old(self).wf(),
        ensures
            (expression_result(r), final(self).cursor()) == grammar::unary(
                old(self).tokens@,
                old(self).cursor(),
            ),
            follows(*old(self), *final(self), r is Ok),
            r matches Ok(e) ==> numbered(*old(self), *final(self), ids_of(e)),
            r matches Ok(e) ==> (worded(old(self).tokens@) ==> named(e)),
        decreases old(self).tokens.len() - old(self).current, 3int,
    {
        if self.check(TokenType::BANG) || self.check(TokenType::MINUS) {
            let operator = self.peek().clone();
            self.advance();
            match self.unary() {
                Ok(right) => {
                    let id = self.fresh_id();
                    proof {
                        fresh_push(ids_of(right), old(self).next_id as int, id);
                    }
                    Ok(
                        Expression::Unary(
                            UnaryExpression { operator, expression: Box::new(right), id },
                        ),
                    )
                },
                Err(error) => Err(error),
            }
        } else {
            self.call()
        }
    }

    /// An operand of a level: an expression of the next tighter level.
    fn operand(&mut self, level: BinaryLevel) -> (r: Result<Expression, ParseError>)
        requires
            old(self).wf(),
        ensures
            (expression_result(r), final(self).cursor()) == grammar::operand(
                old(self).tokens@,
                old(self).cursor(),
                level,
            ),
            follows(*old(self), *final(self), r is Ok),
            r matches Ok(e) ==> numbered(*old(self), *final(self), ids_of(e)),
            r matches Ok(e) ==> (worded(old(self).tokens@) ==> named(e)),
        decreases old(self).tokens.len() - old(self).current, grammar::level_rank(level) - 1,
    {
        match level {
            BinaryLevel::Factor => self.unary(),
            BinaryLevel::Term => self.binary(BinaryLevel::Factor),
            BinaryLevel::Comparison => self.binary(BinaryLevel::Term),
            BinaryLevel::Equality => self.binary(BinaryLevel::Comparison),
        }
    }

    /// The operators of a level and their right operands, folded to the
    /// left. The identities of the left operand are unique from `low` on.
    fn binary_rest(
        &mut self,
        level: BinaryLevel,
        left: Expression,
        Ghost(low): Ghost<int>,
    ) -> (r: Result<Expression, ParseError>)
        requires
            old(self).wf(),
            fresh(ids_of(left), low, old(self).next_id as int),
            worded(old(self).tokens@) ==> named(left),
            low <= old(self).next_id,
        ensures
            (expression_result(r), final(self).cursor()) == grammar::binary_rest(
                old(self).tokens@,
                old(self).cursor(),
                level,
                expression_view(left),
            ),
            final(self).wf(),
            final(self).tokens == old(self).tokens,
            reported(old(self).diagnostics@, final(self).diagnostics@),
            final(self).current - final(self).next_id >= old(self).current - old(self).next_id,
            final(self).current >= old(self).current,
            final(self).next_id >= old(self).next_id,
            r is Err ==> follows(*old(self), *final(self), false),
            r matches Ok(all) ==> fresh(ids_of(all), low, final(self).next_id as int),
            r matches Ok(all) ==> (worded(old(self).tokens@) ==> named(all)),
        decreases old(self).tokens.len() - old(self).current, 1int,
    {
        if is_operator(level, self.peek().token_type) {
            let operator = self.peek().clone();
            self.advance();
            match self.operand(level) {
                Ok(right) => {
                    let id = self.fresh_id();
                    proof {
                        fresh_join(
                            ids_of(left),
                            low,
                            old(self).next_id as int,
                            ids_of(right),
                            old(self).next_id as int,
                            id as int,
                        );
                        fresh_push(ids_of(left) + ids_of(right), low, id);
                    }
                    self.binary_rest(
                        level,
                        Expression::Binary(
                            BinaryExpression {
                                left: Box::new(left),
                                right: Box::new(right),
                                operator,
                                id,
                            },
                        ),
                        Ghost(low),
                    )
                },
                Err(error) => Err(error),
            }
        } else {
            Ok(left)
        }
    }

    /// A chain of operators of one level.
    pub fn binary(&mut self, level: BinaryLevel) -> (r: Result<Expression, ParseError>)
        requires
            old(self).wf(),
        ensures
            (expression_result(r), final(self).cursor()) == grammar::binary(
                old(self).tokens@,
                old(self).cursor(),
                level,
            ),
            follows(*old(self), *final(self), r is Ok),
            r matches Ok(e) ==> numbered(*old(self), *final(self), ids_of(e)),
            r matches Ok(e) ==> (worded(old(self).tokens@) ==> named(e)),
        decreases old(self).tokens.len() - old(self).current, grammar::level_rank(level),
    {
        match self.operand(level) {
            Ok(e) => self.binary_rest(level, e, Ghost(old(self).next_id as int)),
            Err(error) => Err(error),
        }
    }

    /// `factor := unary ( ( "/" | "*" ) unary )*`
    pub fn factor(&mut self) -> (r: Result<Expression, ParseError>)
        requires
            old(self).wf(),
        ensures
            (expression_result(r), final(self).cursor()) == grammar::binary(
                old(self).tokens@,
                old(self).cursor(),
                BinaryLevel::Factor,
            ),
            follows(*old(self), *final(self), r is Ok),
            r matches Ok(e) ==> numbered(*old(self), *final(self), ids_of(e)),
            r matches Ok(e) ==> (worded(old(self).tokens@) ==> named(e)),
        decreases old(self).tokens.len() - old(self).current, 12int,
    {
        self.binary(BinaryLevel::Factor)
    }

    /// `term := factor ( ( "+" | "-" ) factor )*`
    pub fn term(&mut self) -> (r: Result<Expression, ParseError>)
        requires
            old(self).wf(),
        ensures
            (expression_result(r), final(self).cursor()) == grammar::binary(
                old(self).tokens@,
                old(self).cursor(),
                BinaryLevel::Term,
            ),
            follows(*old(self), *final(self), r is Ok),
            r matches Ok(e) ==> numbered(*old(self), *final(self), ids_of(e)),
            r matches Ok(e) ==> (worded(old(self).tokens@) ==> named(e)),
        decreases old(self).tokens.len() - old(self).current, 12int,
    {
        self.binary(BinaryLevel::Term)
    }

    /// `comparison := term ( ( ">" | ">=" | "<" | "<=" ) term )*`
    pub fn comparison(&mut self) -> (r: Result<Expression, ParseError>)
        requires
            old(self).wf(),
        ensures
            (expression_result(r), final(self).cursor()) == grammar::binary(
                old(self).tokens@,
                old(self).cursor(),
                BinaryLevel::Comparison,
            ),
            follows(*old(self), *final(self), r is Ok),
            r matches Ok(e) ==> numbered(*old(self), *final(self), ids_of(e)),
            r matches Ok(e) ==> (worded(old(self).tokens@) ==> named(e)),
        decreases old(self).tokens.len() - old(self).current, 12int,
    {
        self.binary(BinaryLevel::Comparison)
    }

    /// `equality := comparison ( ( "!=" | "==" ) comparison )*`
    pub fn equality(&mut self) -> (r: Result<Expression, ParseError>)
        requires
            old(self).wf(),
        ensures
            (expression_result(r), final(self).cursor()) == grammar::binary(
                old(self).tokens@,
                old(self).cursor(),
                BinaryLevel::Equality,
            ),
            follows(*old(self), *final(self), r is Ok),
            r matches Ok(e) ==> numbered(*old(self), *final(self), ids_of(e)),
            r matches Ok(e) ==> (worded(old(self).tokens@) ==> named(e)),
        decreases old(self).tokens.len() - old(self).current, 12int,
    {
        self.binary(BinaryLevel::Equality)
    }

    /// The `and` operators and their right operands, folded to the left.
    /// The identities of the left operand are unique from `low` on.
    fn and_rest(
        &mut self,
        left: Expression,
        Ghost(low): Ghost<int>,
    ) -> (r: Result<Expression, ParseError>)
        requires
            old(self).wf(),
            fresh(ids_of(left), low, old(self).next_id as int),
            worded(old(self).tokens@) ==> named(left),
            low <= old(self).next_id,
        ensures
            (expression_result(r), final(self).cursor()) == grammar::and_rest(
                old(self).tokens@,
                old(self).cursor(),
                expression_view(left),
            ),
            final(self).wf(),
            final(self).tokens == old(self).tokens,
            reported(old(self).diagnostics@, final(self).diagnostics@),
            final(self).current - final(self).next_id >= old(self).current - old(self).next_id,
            final(self).current >= old(self).current,
            final(self).next_id >= old(self).next_id,
            r is Err ==> follows(*old(self), *final(self), false),
            r matches Ok(all) ==> fresh(ids_of(all), low, final(self).next_id as int),
            r matches Ok(all) ==> (worded(old(self).tokens@) ==> named(all)),
        decreases old(self).tokens.len() - old(self).current, 1int,
    {
        if self.check(TokenType::AND) {
            let operator = self.peek().clone();
            self.advance();
            match self.equality() {
                Ok(right) => {
                    let id = self.fresh_id();
                    proof {
                        fresh_join(
                            ids_of(left),
                            low,
                            old(self).next_id as int,
                            ids_of(right),
                            old(self).next_id as int,
                            id as int,
                        );
                        fresh_push(ids_of(left) + ids_of(right), low, id);
                    }
                    self.and_rest(
                        Expression::Logical(
                            LogicalExpression {
                                left: Box::new(left),
                                operator,
                                right: Box::new(right),
                                id,
                            },
                        ),
                        Ghost(low),
                    )
                },
                Err(error) => Err(error),
            }
        } else {
            Ok(left)
        }
    }

    /// `logicAnd := equality ( "and" equality )*`
    pub fn and(&mut self) -> (r: Result<Expression, ParseError>)
        requires
            old(self).wf(),
        ensures
            (expression_result(r), final(self).cursor()) == grammar::and(
                old(self).tokens@,
                old(self).cursor(),
            ),
            follows(*old(self), *final(self), r is Ok),
            r matches Ok(e) ==> numbered(*old(self), *final(self), ids_of(e)),
            r matches Ok(e) ==> (worded(old(self).tokens@) ==> named(e)),
        decreases old(self).tokens.len() - old(self).current, 13int,
    {
        match self.equality() {
            Ok(e) => self.and_rest(e, Ghost(old(self).next_id as int)),
            Err(error) => Err(error),
        }
    }

    /// The `or` operators and their right operands, folded to the left.
    /// The identities of the left operand are unique from `low` on.
    fn or_rest(
        &mut self,
        left: Expression,
        Ghost(low): Ghost<int>,
    ) -> (r: Result<Expression, ParseError>)
        requires
            old(self).wf(),
            fresh(ids_of(left), low, old(self).next_id as int),
            worded(old(self).tokens@) ==> named(left),
            low <= old(self).next_id,
        ensures
            (expression_result(r), final(self).cursor()) == grammar::or_rest(
                old(self).tokens@,
                old(self).cursor(),
                expression_view(left),
            ),
            final(self).wf(),
            final(self).tokens == old(self).tokens,
            reported(old(self).diagnostics@, final(self).diagnostics@),
            final(self).current - final(self).next_id >= old(self).current - old(self).next_id,
            final(self).current >= old(self).current,
            final(self).next_id >= old(self).next_id,
            r is Err ==> follows(*old(self), *final(self), false),
            r matches Ok(all) ==> fresh(ids_of(all), low, final(self).next_id as int),
            r matches Ok(all) ==> (worded(old(self).tokens@) ==> named(all)),
        decreases old(self).tokens.len() - old(self).current, 1int,
    {
        if self.check(TokenType::OR) {
            let operator = self.peek().clone();
            self.advance();
            match self.and() {
                Ok(right) => {
                    let id = self.fresh_id();
                    proof {
                        fresh_join(
                            ids_of(left),
                            low,
                            old(self).next_id as int,
                            ids_of(right),
                            old(self).next_id as int,
                            id as int,
                        );
                        fresh_push(ids_of(left) + ids_of(right), low, id);
                    }
                    self.or_rest(
                        Expression::Logical(
                            LogicalExpression {
                                left: Box::new(left),
                                operator,
                                right: Box::new(right),
                                id,
                            },
                        ),
                        Ghost(low),
                    )
                },
                Err(error) => Err(error),
            }
        } else {
            Ok(left)
        }
    }

    /// `logicOr := logicAnd ( "or" logicAnd )*`
    pub fn or(&mut self) -> (r: Result<Expression, ParseError>)
        requires
            old(self).wf(),
        ensures
            (expression_result(r), final(self).cursor()) == grammar::or(
                old(self).tokens@,
                old(self).cursor(),
            ),
            follows(*old(self), *final(self), r is Ok),
            r matches Ok(e) ==> numbered(*old(self), *final(self), ids_of(e)),
            r matches Ok(e) ==> (worded(old(self).tokens@) ==> named(e)),
        decreases old(self).tokens.len() - old(self).current, 14int,
    {
        match self.and() {
            Ok(e) => self.or_rest(e, Ghost(old(self).next_id as int)),
            Err(error) => Err(error),
        }
    }

    /// Make the assignment of a value to a target: a write to a name or to
    /// a property. Any other target is reported at the `=` and handed back
    /// as it is. The identities of the target are unique from `low` to
    /// `middle`, those of the value from there on.
    fn assign_to(
        &mut self,
        target: Expression,
        equals: Token,
        value: Expression,
        Ghost(low): Ghost<int>,
        Ghost(middle): Ghost<int>,
    ) -> (r: Expression)
        requires
            old(self).wf(),
            old(self).next_id < old(self).current,
            fresh(ids_of(target), low, middle),
            worded(old(self).tokens@) ==> named(target),
            fresh(ids_of(value), middle, old(self).next_id as int),
            worded(old(self).tokens@) ==> named(value),
            low <= middle <= old(self).next_id,
        ensures
            (expression_view(r), final(self).cursor()) == grammar::assign_to(
                old(self).tokens@,
                old(self).cursor(),
                expression_view(target),
                equals,
                expression_view(value),
            ),
            final(self).wf(),
            final(self).tokens == old(self).tokens,
            reported(old(self).diagnostics@, final(self).diagnostics@),
            final(self).current - final(self).next_id >= old(self).current - old(self).next_id - 1,
            final(self).current >= old(self).current,
            final(self).next_id >= old(self).next_id,
            fresh(ids_of(r), low, final(self).next_id as int),
            worded(old(self).tokens@) ==> named(r),
    {
        match target {
            Expression::Variable(variable) => {
                let id = self.fresh_id();
                proof {
                    fresh_widen(ids_of(value), middle, id as int, low, id as int);
                    fresh_push(ids_of(value), low, id);
                }
                Expression::Assignment(
                    AssignmentExpression { name: variable.variable, value: Box::new(value), id },
                )
            },
            Expression::Get(get) => {
                let id = self.fresh_id();
                proof {
                    let object = ids_of(*get.expression);
                    assert(ids_of(target) =~= object + seq![get.id]);
                    fresh_front(object, seq![get.id], low, middle);
                    fresh_join(object, low, middle, ids_of(value), middle, id as int);
                    fresh_push(object + ids_of(value), low, id);
                }
                Expression::SetField(
                    SetExpression {
                        expression: get.expression,
                        name: get.name,
                        value: Box::new(value),
                        id,
                    },
                )
            },
            other => {
                let _ = self.error(equals, ParseMessage::InvalidAssignmentTarget);
                proof {
                    fresh_widen(ids_of(target), low, middle, low, self.next_id as int);
                }
                other
            },
        }
    }

    /// `assignment := ( call "." IDENT | IDENT ) "=" assignment | logicOr`
    pub fn assignment(&mut self) -> (r: Result<Expression, ParseError>)
        requires
            old(self).wf(),
        ensures
            (expression_result(r), final(self).cursor()) == grammar::assignment(
                old(self).tokens@,
                old(self).cursor(),
            ),
            follows(*old(self), *final(self), r is Ok),
            r matches Ok(e) ==> numbered(*old(self), *final(self), ids_of(e)),
            r matches Ok(e) ==> (worded(old(self).tokens@) ==> named(e)),
        decreases old(self).tokens.len() - old(self).current, 15int,
    {
        match self.or() {
            Ok(target) => {
                if self.check(TokenType::EQUAL) {
                    let equals = self.peek().clone();
                    self.advance();
                    let ghost middle = self.next_id as int;
                    match self.assignment() {
                        Ok(value) => Ok(
                            self.assign_to(
                                target,
                                equals,
                                value,
                                Ghost(old(self).next_id as int),
                                Ghost(middle),
                            ),
                        ),
                        Err(error) => Err(error),
                    }
                } else {
                    Ok(target)
                }
            },
            Err(error) => Err(error),
        }
    }

    /// `expression := assignment`
    pub fn expression(&mut self) -> (r: Result<Expression, ParseError>)
        requires
            old(self).wf(),
        ensures
            (expression_result(r), final(self).cursor()) == grammar::expression(
                old(self).tokens@,
                old(self).cursor(),
            ),
            follows(*old(self), *final(self), r is Ok),
            r matches Ok(e) ==> numbered(*old(self), *final(self), ids_of(e)),
            r matches Ok(e) ==> (worded(old(self).tokens@) ==> named(e)),
        decreases old(self).tokens.len() - old(self).current, 16int,
    {
        self.assignment()
    }
}

/// The view of the result of parsing a list of function declarations.
pub open spec fn functions_result(
    r: Result<Vec<FunctionStatement>, ParseError>,
) -> Result<Seq<FunctionView>, ParseError> {
    match r {
        Ok(f) => Ok(functions_view(f@)),
        Err(error) => Err(error),
    }
}

/// The view of the result of parsing a list of names.
pub open spec fn tokens_result(
    r: Result<Vec<Token>, ParseError>,
) -> Result<Seq<Token>, ParseError> {
    match r {
        Ok(t) => Ok(t@),
        Err(error) => Err(error),
    }
}

/// The view of the result of parsing an optional expression.
pub open spec fn optional_expression_result(
    r: Result<Option<Expression>, ParseError>,
) -> Result<Option<ExpressionView>, ParseError> {
    match r {
        Ok(e) => Ok(optional_expression_view(e)),
        Err(error) => Err(error),
    }
}

/// The view of an optional statement.
pub open spec fn optional_statement_view(s: Option<Box<Statement>>) -> Option<StatementView> {
    match s {
        Some(s) => Some(statement_view(*s)),
        None => None,
    }
}

/// The view of the result of parsing an optional statement.
pub open spec fn optional_statement_result(
    r: Result<Option<Box<Statement>>, ParseError>,
) -> Result<Option<StatementView>, ParseError> {
    match r {
        Ok(s) => Ok(optional_statement_view(s)),
        Err(error) => Err(error),
    }
}

/// The identities of the expression nodes of a function declaration.
pub open spec fn ids_in_function(f: FunctionStatement) -> Seq<u64> {
    function_ids(function_view(f))
}

/// The identities of the expression nodes of a list of function
/// declarations.
pub open spec fn ids_in_functions(list: Seq<FunctionStatement>) -> Seq<u64> {
    functions_ids(functions_view(list), list.len() as int)
}

/// The identities of the nodes of an optional expression.
pub open spec fn ids_of_optional(e: Option<Expression>) -> Seq<u64> {
    optional_expression_ids(optional_expression_view(e))
}

/// The identities of the expression nodes of an optional statement.
pub open spec fn ids_in_optional(s: Option<Box<Statement>>) -> Seq<u64> {
    match s {
        Some(s) => ids_in(*s),
        None => Seq::empty(),
    }
}

/// The identities of the expression nodes of an optional statement.
pub open spec fn optional_statement_ids(s: Option<StatementView>) -> Seq<u64> {
    match s {
        Some(s) => statement_ids(s),
        None => Seq::empty(),
    }
}

/// The identity of a superclass, if there is one.
pub open spec fn ids_of_superclass(v: Option<VariableExpression>) -> Seq<u64> {
    match v {
        Some(v) => seq![v.id],
        None => Seq::empty(),
    }
}

/// The identities of two statements in a row are those of the first and
/// then those of the second.
pub proof fn statements_ids_pair(a: StatementView, b: StatementView)
    ensures
        statements_ids(seq![a, b], 2) == statement_ids(a) + statement_ids(b),
{
    let list = seq![a, b];
    assert(statements_ids(list, 0) =~= Seq::empty());
    assert(statements_ids(list, 1) =~= statement_ids(a));
    assert(statements_ids(list, 2) =~= statement_ids(a) + statement_ids(b));
}

/// The identities in what a `for` loop stands for are those of its parts:
/// of the initializer, of the condition or of the `true` in its place, of
/// the body and of the increment.
pub proof fn desugar_ids(
    initializer: Option<StatementView>,
    condition: Option<ExpressionView>,
    increment: Option<ExpressionView>,
    body: StatementView,
    id: u64,
)
    ensures
        statement_ids(grammar::desugar(initializer, condition, increment, body, id))
            == optional_statement_ids(initializer) + (match condition {
            Some(c) => expression_ids(c),
            None => seq![id],
        } + (statement_ids(body) + optional_expression_ids(increment))),
{
    let stepped = match increment {
        Some(increment) => StatementView::Block {
            statements: seq![body, StatementView::Expression { expression: increment }],
        },
        None => body,
    };
    assert(statement_ids(stepped) =~= statement_ids(body) + optional_expression_ids(increment)) by {
        match increment {
            Some(increment) => {
                statements_ids_pair(body, StatementView::Expression { expression: increment });
            },
            None => {},
        }
    }
    let test = match condition {
        Some(condition) => condition,
        None => ExpressionView::Literal { value: LiteralValue::Boolean(true), id },
    };
    let looping = StatementView::While { condition: test, body: Box::new(stepped) };
    match initializer {
        Some(initializer) => {
            statements_ids_pair(initializer, looping);
        },
        None => {
            assert(optional_statement_ids(initializer) + statement_ids(looping) =~= statement_ids(
                looping,
            ));
        },
    }
}

/// The identities of a list with one more function are those of the list
/// with those of that function behind them.
pub proof fn ids_in_functions_push(s: Seq<FunctionStatement>, e: FunctionStatement)
    ensures
        ids_in_functions(s.push(e)) == ids_in_functions(s) + ids_in_function(e),
{
    functions_view_push(s, e);
    functions_view_len(s);
    functions_ids_front(functions_view(s), function_view(e), s.len() as int);
}

impl ForStatement {
    /// The block and the `while` loop that the `for` loop stands for. The
    /// identity is that of the `true` which a missing condition becomes.
    pub fn desugar(self, id: u64) -> (r: Statement)
        ensures
            statement_view(r) == grammar::desugar(
                optional_statement_view(self.initializer),
                optional_expression_view(self.condition),
                optional_expression_view(self.increment),
                statement_view(*self.body),
                id,
            ),
            plain_branch(self.initializer) && plain_optional(self.condition) && plain_optional(
                self.increment,
            ) && plain_statement(*self.body) ==> plain_statement(r),
    {
        let mut body = *self.body;
        let ghost given = plain_branch(self.initializer) && plain_optional(self.condition)
            && plain_optional(self.increment) && plain_statement(*self.body);
        match self.increment {
            Some(increment) => {
                let step = Statement::Expression(ExpressionStatement { expression: increment });
                proof {
                    statements_view_pair(body, step);
                    if given {
                        plain_statements_pair(body, step);
                    }
                }
                let mut statements: Vec<Statement> = Vec::new();
                statements.push(body);
                statements.push(step);
                assert(statements@ =~= seq![body, step]);
                body = Statement::Block(BlockStatement { statements });
            },
            None => {},
        }
        let condition = match self.condition {
            Some(condition) => condition,
            None => Expression::Literal(Literal { value: LiteralValue::Boolean(true), id }),
        };
        let looping = Statement::While(WhileStatement { condition, body: Box::new(body) });
        assert(statement_view(looping) == StatementView::While {
            condition: expression_view(condition),
            body: Box::new(statement_view(body)),
        });
        assert(given ==> plain_statement(body));
        assert(given ==> plain_statement(looping));
        match self.initializer {
            Some(initializer) => {
                let first = *initializer;
                proof {
                    statements_view_pair(first, looping);
                    if given {
                        plain_statements_pair(first, looping);
                    }
                }
                let mut statements: Vec<Statement> = Vec::new();
                statements.push(first);
                statements.push(looping);
                assert(statements@ =~= seq![first, looping]);
                Statement::Block(BlockStatement { statements })
            },
            None => looping,
        }
    }
}

impl Parser {
    /// An expression and the semicolon behind it.
    fn terminated_expression(&mut self) -> (r: Result<Expression, ParseError>)
        requires
            old(self).wf(),
        ensures
            (expression_result(r), final(self).cursor()) == grammar::terminated_expression(
                old(self).tokens@,
                old(self).cursor(),
            ),
            follows(*old(self), *final(self), r is Ok),
            r matches Ok(e) ==> numbered(*old(self), *final(self), ids_of(e)),
            r matches Ok(e) ==> (worded(old(self).tokens@) ==> named(e)),
        decreases old(self).tokens.len() - old(self).current, 19int,
    {
        match self.expression() {
            Ok(e) => match self.consume(
                TokenType::SEMICOLON,
                ParseMessage::ExpectSemicolonAfterValue,
            ) {
                Ok(_) => Ok(e),
                Err(error) => Err(error),
            },
            Err(error) => Err(error),
        }
    }

    /// `exprStmt := expression ";"`
    pub fn expression_statement(&mut self) -> (r: Result<Statement, ParseError>)
        requires
            old(self).wf(),
        ensures
            (statement_result(r), final(self).cursor()) == grammar::expression_statement(
                old(self).tokens@,
                old(self).cursor(),
            ),
            follows(*old(self), *final(self), r is Ok),
            r matches Ok(s) ==> numbered(*old(self), *final(self), ids_in(s)),
            r matches Ok(s) ==> (worded(old(self).tokens@) ==> plain_statement(s)),
        decreases old(self).tokens.len() - old(self).current, 20int,
    {
        match self.terminated_expression() {
            Ok(expression) => Ok(Statement::Expression(ExpressionStatement { expression })),
            Err(error) => Err(error),
        }
    }

    /// `printStmt := "print" expression ";"`, from behind the keyword.
    pub fn print_statement(&mut self) -> (r: Result<Statement, ParseError>)
        requires
            old(self).wf(),
        ensures
            (statement_result(r), final(self).cursor()) == grammar::print_statement(
                old(self).tokens@,
                old(self).cursor(),
            ),
            follows(*old(self), *final(self), r is Ok),
            r matches Ok(s) ==> numbered(*old(self), *final(self), ids_in(s)),
            r matches Ok(s) ==> (worded(old(self).tokens@) ==> plain_statement(s)),
        decreases old(self).tokens.len() - old(self).current, 20int,
    {
        match self.terminated_expression() {
            Ok(expression) => Ok(Statement::Print(PrintStatement { expression })),
            Err(error) => Err(error),
        }
    }

    /// `returnStmt := "return" expression? ";"`, from behind the keyword.
    pub fn return_statement(&mut self) -> (r: Result<Statement, ParseError>)
        requires
            old(self).wf(),
            old(self).current >= 1,
        ensures
            (statement_result(r), final(self).cursor()) == grammar::return_statement(
                old(self).tokens@,
                old(self).cursor(),
            ),
            follows(*old(self), *final(self), r is Ok),
            r matches Ok(s) ==> numbered(*old(self), *final(self), ids_in(s)),
            r matches Ok(s) ==> (worded(old(self).tokens@) ==> plain_statement(s)),
        decreases old(self).tokens.len() - old(self).current, 20int,
    {
        let keyword = self.previous().clone();
        let mut value: Option<Expression> = None;
        if !self.check(TokenType::SEMICOLON) {
            match self.expression() {
                Ok(e) => {
                    value = Some(e);
                },
                Err(error) => {
                    return Err(error);
                },
            }
        }
        match self.consume(TokenType::SEMICOLON, ParseMessage::ExpectSemicolonAfterReturnValue) {
            Ok(_) => Ok(Statement::Return(ReturnStatement { keyword, value })),
            Err(error) => Err(error),
        }
    }

    /// A condition in parentheses.
    fn condition(
        &mut self,
        open: ParseMessage,
        close: ParseMessage,
    ) -> (r: Result<Expression, ParseError>)
        requires
            old(self).wf(),
        ensures
            (expression_result(r), final(self).cursor()) == grammar::condition(
                old(self).tokens@,
                old(self).cursor(),
                open,
                close,
            ),
            follows(*old(self), *final(self), r is Ok),
            r matches Ok(e) ==> numbered(*old(self), *final(self), ids_of(e)),
            r matches Ok(e) ==> (worded(old(self).tokens@) ==> named(e)),
        decreases old(self).tokens.len() - old(self).current, 19int,
    {
        match self.consume(TokenType::LEFT_PAREN, open) {
            Ok(_) => match self.expression() {
                Ok(e) => match self.consume(TokenType::RIGHT_PAREN, close) {
                    Ok(_) => Ok(e),
                    Err(error) => Err(error),
                },
                Err(error) => Err(error),
            },
            Err(error) => Err(error),
        }
    }

    /// `whileStmt := "while" "(" expression ")" statement`, from behind the
    /// keyword.
    pub fn while_statement(&mut self) -> (r: Result<Statement, ParseError>)
        requires
            old(self).wf(),
        ensures
            (statement_result(r), final(self).cursor()) == grammar::while_statement(
                old(self).tokens@,
                old(self).cursor(),
            ),
            follows(*old(self), *final(self), r is Ok),
            r matches Ok(s) ==> numbered(*old(self), *final(self), ids_in(s)),
            r matches Ok(s) ==> (worded(old(self).tokens@) ==> plain_statement(s)),
        decreases old(self).tokens.len() - old(self).current, 20int,
    {
        match self.condition(
            ParseMessage::ExpectLeftParenAfterWhile,
            ParseMessage::ExpectRightParenAfterCondition,
        ) {
            Ok(condition) => match self.statement() {
                Ok(body) => Ok(
                    Statement::While(WhileStatement { condition, body: Box::new(body) }),
                ),
                Err(error) => Err(error),
            },
            Err(error) => Err(error),
        }
    }

    /// `ifStmt := "if" "(" expression ")" statement ( "else" statement )?`,
    /// from behind the keyword.
    pub fn if_statement(&mut self) -> (r: Result<Statement, ParseError>)
        requires
            old(self).wf(),
        ensures
            (statement_result(r), final(self).cursor()) == grammar::if_statement(
                old(self).tokens@,
                old(self).cursor(),
            ),
            follows(*old(self), *final(self), r is Ok),
            r matches Ok(s) ==> numbered(*old(self), *final(self), ids_in(s)),
            r matches Ok(s) ==> (worded(old(self).tokens@) ==> plain_statement(s)),
        decreases old(self).tokens.len() - old(self).current, 20int,
    {
        match self.condition(
            ParseMessage::ExpectLeftParenAfterIf,
            ParseMessage::ExpectRightParenAfterIfCondition,
        ) {
            Ok(condition) => match self.statement() {
                Ok(then_statement) => {
                    let mut else_statement: Option<Box<Statement>> = None;
                    if self.check(TokenType::ELSE) {
                        self.advance();
                        match self.statement() {
                            Ok(other) => {
                                else_statement = Some(Box::new(other));
                            },
                            Err(error) => {
                                return Err(error);
                            },
                        }
                    }
                    Ok(
                        Statement::If(
                            IfStatement {
                                condition,
                                then_statement: Box::new(then_statement),
                                else_statement,
                            },
                        ),
                    )
                },
                Err(error) => Err(error),
            },
            Err(error) => Err(error),
        }
    }

    /// The first clause of a `for` loop.
    fn for_initializer(&mut self) -> (r: Result<Option<Box<Statement>>, ParseError>)
        requires
            old(self).wf(),
        ensures
            (optional_statement_result(r), final(self).cursor()) == grammar::for_initializer(
                old(self).tokens@,
                old(self).cursor(),
            ),
            follows(*old(self), *final(self), r is Ok),
            r matches Ok(s) ==> numbered(*old(self), *final(self), ids_in_optional(s)),
            r matches Ok(s) ==> (worded(old(self).tokens@) ==> plain_branch(s)),
        decreases old(self).tokens.len() - old(self).current, 21int,
    {
        if self.check(TokenType::SEMICOLON) {
            self.advance();
            Ok(None)
        } else if self.check(TokenType::VAR) {
            self.advance();
            match self.var_declaration() {
                Ok(s) => Ok(Some(Box::new(s))),
                Err(error) => Err(error),
            }
        } else {
            match self.expression_statement() {
                Ok(s) => Ok(Some(Box::new(s))),
                Err(error) => Err(error),
            }
        }
    }

    /// An optional expression in front of a closing token.
    fn for_clause(
        &mut self,
        close: TokenType,
        message: ParseMessage,
    ) -> (r: Result<Option<Expression>, ParseError>)
        requires
            old(self).wf(),
            close != TokenType::EOF,
        ensures
            (optional_expression_result(r), final(self).cursor()) == grammar::for_clause(
                old(self).tokens@,
                old(self).cursor(),
                close,
                message,
            ),
            follows(*old(self), *final(self), r is Ok),
            r matches Ok(e) ==> numbered(*old(self), *final(self), ids_of_optional(e)),
            r matches Ok(e) ==> (worded(old(self).tokens@) ==> plain_optional(e)),
        decreases old(self).tokens.len() - old(self).current, 19int,
    {
        let mut value: Option<Expression> = None;
        if !self.check(close) {
            match self.expression() {
                Ok(e) => {
                    value = Some(e);
                },
                Err(error) => {
                    return Err(error);
                },
            }
        }
        match self.consume(close, message) {
            Ok(_) => Ok(value),
            Err(error) => Err(error),
        }
    }

    /// `forStmt := "for" "(" ( varDecl | exprStmt | ";" ) expression? ";"
    /// expression? ")" statement`, from behind the keyword. The loop is
    /// handed back as the block and the `while` loop that it stands for.
    pub fn for_statement(&mut self) -> (r: Result<Statement, ParseError>)
        requires
            old(self).wf(),
        ensures
            (statement_result(r), final(self).cursor()) == grammar::for_statement(
                old(self).tokens@,
                old(self).cursor(),
            ),
            follows(*old(self), *final(self), r is Ok),
            r matches Ok(s) ==> numbered(*old(self), *final(self), ids_in(s)),
            r matches Ok(s) ==> (worded(old(self).tokens@) ==> plain_statement(s)),
        decreases old(self).tokens.len() - old(self).current, 22int,
    {
        match self.consume(TokenType::LEFT_PAREN, ParseMessage::ExpectLeftParenAfterFor) {
            Ok(_) => {},
            Err(error) => {
                return Err(error);
            },
        }
        let initializer = match self.for_initializer() {
            Ok(initializer) => initializer,
            Err(error) => {
                return Err(error);
            },
        };
        let ghost first = self.next_id as int;
        let condition = match self.for_clause(
            TokenType::SEMICOLON,
            ParseMessage::ExpectSemicolonAfterLoopCondition,
        ) {
            Ok(condition) => condition,
            Err(error) => {
                return Err(error);
            },
        };
        let ghost second = self.next_id as int;
        let increment = match self.for_clause(
            TokenType::RIGHT_PAREN,
            ParseMessage::ExpectRightParenAfterForClauses,
        ) {
            Ok(increment) => increment,
            Err(error) => {
                return Err(error);
            },
        };
        let ghost third = self.next_id as int;
        let body = match self.statement() {
            Ok(body) => body,
            Err(error) => {
                return Err(error);
            },
        };
        let ghost last = self.next_id as int;
        let id = if condition.is_none() {
            self.fresh_id()
        } else {
            0
        };
        proof {
            desugar_ids(
                optional_statement_view(initializer),
                optional_expression_view(condition),
                optional_expression_view(increment),
                statement_view(body),
                id,
            );
            let test = if condition is Some {
                ids_of_optional(condition)
            } else {
                seq![id]
            };
            fresh_join(ids_in(body), third, last, ids_of_optional(increment), second, third);
            let stepped = ids_in(body) + ids_of_optional(increment);
            if condition is Some {
                fresh_join(test, first, second, stepped, second, last);
            } else {
                fresh_join(test, last, last + 1, stepped, second, last);
                fresh_widen(test + stepped, second, last + 1, first, last + 1);
            }
            fresh_join(
                ids_in_optional(initializer),
                old(self).next_id as int,
                first,
                test + stepped,
                first,
                self.next_id as int,
            );
        }
        let parts = ForStatement { initializer, condition, increment, body: Box::new(body) };
        Ok(parts.desugar(id))
    }

    /// The declarations of a block, up to its closing brace or the end. The
    /// identities of the statements so far are unique from `low` on.
    fn block_items(
        &mut self,
        statements: Vec<Statement>,
        Ghost(low): Ghost<int>,
    ) -> (r: Result<Vec<Statement>, ParseError>)
        requires
            old(self).wf(),
            fresh(ids_in_all(statements@), low, old(self).next_id as int),
            worded(old(self).tokens@) ==> plain_statements(statements@, 0),
            low <= old(self).next_id,
        ensures
            (statements_result(r), final(self).cursor()) == grammar::block_items(
                old(self).tokens@,
                old(self).cursor(),
                statements_view(statements@),
            ),
            final(self).wf(),
            final(self).tokens == old(self).tokens,
            reported(old(self).diagnostics@, final(self).diagnostics@),
            final(self).current - final(self).next_id >= old(self).current - old(self).next_id,
            final(self).current >= old(self).current,
            final(self).next_id >= old(self).next_id,
            r is Err ==> follows(*old(self), *final(self), false),
            r matches Ok(all) ==> fresh(ids_in_all(all@), low, final(self).next_id as int),
            r matches Ok(all) ==> (worded(old(self).tokens@) ==> plain_statements(all@, 0)),
        decreases old(self).tokens.len() - old(self).current, 40int,
    {
        let mut statements = statements;
        if !self.check(TokenType::RIGHT_BRACE) && !self.is_at_end() {
            match self.declaration() {
                Ok(item) => {
                    proof {
                        statements_view_push(statements@, item);
                        ids_in_all_push(statements@, item);
                        if worded(self.tokens@) {
                            plain_statements_push(statements@, item, 0);
                        }
                        fresh_join(
                            ids_in_all(statements@),
                            low,
                            old(self).next_id as int,
                            ids_in(item),
                            old(self).next_id as int,
                            self.next_id as int,
                        );
                    }
                    statements.push(item);
                    self.block_items(statements, Ghost(low))
                },
                Err(error) => Err(error),
            }
        } else {
            Ok(statements)
        }
    }

    /// `block := "{" declaration* "}"`, from behind the opening brace.
    pub fn block(&mut self) -> (r: Result<Vec<Statement>, ParseError>)
        requires
            old(self).wf(),
        ensures
            (statements_result(r), final(self).cursor()) == grammar::block(
                old(self).tokens@,
                old(self).cursor(),
            ),
            follows(*old(self), *final(self), r is Ok),
            r matches Ok(s) ==> numbered(*old(self), *final(self), ids_in_all(s@)),
            r matches Ok(s) ==> (worded(old(self).tokens@) ==> plain_statements(s@, 0)),
        decreases old(self).tokens.len() - old(self).current, 41int,
    {
        let none: Vec<Statement> = Vec::new();
        assert(statements_view(none@) =~= Seq::empty());
        assert(ids_in_all(none@) =~= Seq::empty());
        match self.block_items(none, Ghost(self.next_id as int)) {
            Ok(statements) => match self.consume(
                TokenType::RIGHT_BRACE,
                ParseMessage::ExpectRightBraceAfterBlock,
            ) {
                Ok(_) => Ok(statements),
                Err(error) => Err(error),
            },
            Err(error) => Err(error),
        }
    }

    /// `statement := printStmt | ifStmt | whileStmt | forStmt | returnStmt
    ///             | block | exprStmt`
    pub fn statement(&mut self) -> (r: Result<Statement, ParseError>)
        requires
            old(self).wf(),
        ensures
            (statement_result(r), final(self).cursor()) == grammar::statement(
                old(self).tokens@,
                old(self).cursor(),
            ),
            follows(*old(self), *final(self), r is Ok),
            r matches Ok(s) ==> numbered(*old(self), *final(self), ids_in(s)),
            r matches Ok(s) ==> (worded(old(self).tokens@) ==> plain_statement(s)),
        decreases old(self).tokens.len() - old(self).current, 25int,
    {
        match self.peek().token_type {
            TokenType::PRINT => {
                self.advance();
                self.print_statement()
            },
            TokenType::IF => {
                self.advance();
                self.if_statement()
            },
            TokenType::LEFT_BRACE => {
                self.advance();
                match self.block() {
                    Ok(statements) => {
                        proof {
                            statements_view_len(statements@);
                        }
                        Ok(Statement::Block(BlockStatement { statements }))
                    },
                    Err(error) => Err(error),
                }
            },
            TokenType::WHILE => {
                self.advance();
                self.while_statement()
            },
            TokenType::FOR => {
                self.advance();
                self.for_statement()
            },
            TokenType::RETURN => {
                self.advance();
                self.return_statement()
            },
            _ => self.expression_statement(),
        }
    }

    /// `varDecl := "var" IDENT ( "=" expression )? ";"`, from behind the
    /// keyword.
    pub fn var_declaration(&mut self) -> (r: Result<Statement, ParseError>)
        requires
            old(self).wf(),
        ensures
            (statement_result(r), final(self).cursor()) == grammar::var_declaration(
                old(self).tokens@,
                old(self).cursor(),
            ),
            follows(*old(self), *final(self), r is Ok),
            r matches Ok(s) ==> numbered(*old(self), *final(self), ids_in(s)),
            r matches Ok(s) ==> (worded(old(self).tokens@) ==> plain_statement(s)),
        decreases old(self).tokens.len() - old(self).current, 20int,
    {
        let name = match self.consume(TokenType::IDENTIFIER, ParseMessage::ExpectVariableName) {
            Ok(name) => name,
            Err(error) => {
                return Err(error);
            },
        };
        let mut initializer: Option<Expression> = None;
        if self.check(TokenType::EQUAL) {
            self.advance();
            match self.expression() {
                Ok(e) => {
                    initializer = Some(e);
                },
                Err(error) => {
                    return Err(error);
                },
            }
        }
        match self.consume(
            TokenType::SEMICOLON,
            ParseMessage::ExpectSemicolonAfterVariableDeclaration,
        ) {
            Ok(_) => Ok(Statement::Variable(VariableStatement { name, initializer })),
            Err(error) => Err(error),
        }
    }

    /// The parameters that follow the first, each behind a comma.
    fn parameters_rest(&mut self, parameters: Vec<Token>) -> (r: Result<Vec<Token>, ParseError>)
        requires
            old(self).wf(),
        ensures
            (tokens_result(r), final(self).cursor()) == grammar::parameters_rest(
                old(self).tokens@,
                old(self).cursor(),
                parameters@,
            ),
            final(self).wf(),
            final(self).tokens == old(self).tokens,
            reported(old(self).diagnostics@, final(self).diagnostics@),
            final(self).current - final(self).next_id >= old(self).current - old(self).next_id,
            final(self).current >= old(self).current,
            final(self).next_id == old(self).next_id,
            r is Err ==> follows(*old(self), *final(self), false),
        decreases old(self).tokens.len() - old(self).current,
    {
        let mut parameters = parameters;
        if self.check(TokenType::COMMA) {
            self.advance();
            if parameters.len() >= MAX_ARITY {
                let token = self.peek().clone();
                let _ = self.error(token, ParseMessage::TooManyParameters);
            }
            match self.consume(TokenType::IDENTIFIER, ParseMessage::ExpectParameterName) {
                Ok(parameter) => {
                    parameters.push(parameter);
                    self.parameters_rest(parameters)
                },
                Err(error) => Err(error),
            }
        } else {
            Ok(parameters)
        }
    }

    /// `params? ")"`, from behind the opening parenthesis.
    fn parameters(&mut self) -> (r: Result<Vec<Token>, ParseError>)
        requires
            old(self).wf(),
        ensures
            (tokens_result(r), final(self).cursor()) == grammar::parameters(
                old(self).tokens@,
                old(self).cursor(),
            ),
            follows(*old(self), *final(self), r is Ok),
            final(self).next_id == old(self).next_id,
    {
        let mut parameters: Vec<Token> = Vec::new();
        if !self.check(TokenType::RIGHT_PAREN) {
            match self.consume(TokenType::IDENTIFIER, ParseMessage::ExpectParameterName) {
                Ok(first) => {
                    parameters.push(first);
                    assert(parameters@ =~= seq![first]);
                    match self.parameters_rest(parameters) {
                        Ok(all) => {
                            parameters = all;
                        },
                        Err(error) => {
                            return Err(error);
                        },
                    }
                },
                Err(error) => {
                    return Err(error);
                },
            }
        }
        match self.consume(TokenType::RIGHT_PAREN, ParseMessage::ExpectRightParenAfterParameters) {
            Ok(_) => Ok(parameters),
            Err(error) => Err(error),
        }
    }

    /// The name and the parameters of a function, up to the opening brace
    /// of its body.
    fn signature(&mut self, kind: FunctionKind) -> (r: Result<(Token, Vec<Token>), ParseError>)
        requires
            old(self).wf(),
        ensures
            (
                match r {
                    Ok(head) => Ok((head.0, head.1@)),
                    Err(error) => Err(error),
                },
                final(self).cursor(),
            ) == grammar::signature(old(self).tokens@, old(self).cursor(), kind),
            follows(*old(self), *final(self), r is Ok),
            final(self).next_id == old(self).next_id,
            r matches Ok(head) ==> (worded(old(self).tokens@) ==> head.0.token_value@ != "this"@),
    {
        let name = match self.consume(TokenType::IDENTIFIER, ParseMessage::ExpectName(kind)) {
            Ok(name) => name,
            Err(error) => {
                return Err(error);
            },
        };
        match self.consume(TokenType::LEFT_PAREN, ParseMessage::ExpectLeftParenAfterName(kind)) {
            Ok(_) => {},
            Err(error) => {
                return Err(error);
            },
        }
        let parameters = match self.parameters() {
            Ok(parameters) => parameters,
            Err(error) => {
                return Err(error);
            },
        };
        match self.consume(TokenType::LEFT_BRACE, ParseMessage::ExpectLeftBraceBeforeBody(kind)) {
            Ok(_) => Ok((name, parameters)),
            Err(error) => Err(error),
        }
    }

    /// `function := IDENT "(" params? ")" block`
    pub fn fun_declaration(
        &mut self,
        kind: FunctionKind,
    ) -> (r: Result<FunctionStatement, ParseError>)
        requires
            old(self).wf(),
        ensures
            (function_result(r), final(self).cursor()) == grammar::fun_declaration(
                old(self).tokens@,
                old(self).cursor(),
                kind,
            ),
            follows(*old(self), *final(self), r is Ok),
            r matches Ok(f) ==> numbered(*old(self), *final(self), ids_in_function(f)),
            r matches Ok(f) ==> (worded(old(self).tokens@) ==> plain_statement(Statement::Function(f))),
        decreases old(self).tokens.len() - old(self).current, 42int,
    {
        match self.signature(kind) {
            Ok(head) => match self.block() {
                Ok(body) => {
                    proof {
                        statements_view_len(body@);
                    }
                    let made = FunctionStatement { name: head.0, parameters: head.1, body };
                    assert(worded(self.tokens@) ==> plain_function(made));
                    Ok(made)
                },
                Err(error) => Err(error),
            },
            Err(error) => Err(error),
        }
    }

    /// The methods of a class, up to its closing brace or the end. The
    /// identities of the methods so far are unique from `low` on.
    fn class_methods(
        &mut self,
        methods: Vec<FunctionStatement>,
        Ghost(low): Ghost<int>,
    ) -> (r: Result<Vec<FunctionStatement>, ParseError>)
        requires
            old(self).wf(),
            fresh(ids_in_functions(methods@), low, old(self).next_id as int),
            worded(old(self).tokens@) ==> plain_functions(methods@, 0),
            low <= old(self).next_id,
        ensures
            (functions_result(r), final(self).cursor()) == grammar::class_methods(
                old(self).tokens@,
                old(self).cursor(),
                functions_view(methods@),
            ),
            final(self).wf(),
            final(self).tokens == old(self).tokens,
            reported(old(self).diagnostics@, final(self).diagnostics@),
            final(self).current - final(self).next_id >= old(self).current - old(self).next_id,
            final(self).current >= old(self).current,
            final(self).next_id >= old(self).next_id,
            r is Err ==> follows(*old(self), *final(self), false),
            r matches Ok(all) ==> fresh(ids_in_functions(all@), low, final(self).next_id as int),
            r matches Ok(all) ==> (worded(old(self).tokens@) ==> plain_functions(all@, 0)),
        decreases old(self).tokens.len() - old(self).current, 43int,
    {
        let mut methods = methods;
        if !self.is_at_end() && !self.check(TokenType::RIGHT_BRACE) {
            match self.fun_declaration(FunctionKind::Method) {
                Ok(method) => {
                    proof {
                        functions_view_push(methods@, method);
                        ids_in_functions_push(methods@, method);
                        if worded(self.tokens@) {
                            plain_functions_push(methods@, method, 0);
                        }
                        fresh_join(
                            ids_in_functions(methods@),
                            low,
                            old(self).next_id as int,
                            ids_in_function(method),
                            old(self).next_id as int,
                            self.next_id as int,
                        );
                    }
                    methods.push(method);
                    self.class_methods(methods, Ghost(low))
                },
                Err(error) => Err(error),
            }
        } else {
            Ok(methods)
        }
    }

    /// `( "<" IDENT )?`: the superclass of a class, if it names one.
    fn superclass(&mut self) -> (r: Result<Option<VariableExpression>, ParseError>)
        requires
            old(self).wf(),
        ensures
            (
                match r {
                    Ok(Some(v)) => Ok(Some(variable_view(v))),
                    Ok(None) => Ok(None),
                    Err(error) => Err(error),
                },
                final(self).cursor(),
            ) == grammar::superclass(old(self).tokens@, old(self).cursor()),
            r matches Ok(v) ==> numbered(*old(self), *final(self), ids_of_superclass(v)),
            final(self).wf(),
            final(self).tokens == old(self).tokens,
            reported(old(self).diagnostics@, final(self).diagnostics@),
            final(self).current - final(self).next_id >= old(self).current - old(self).next_id,
            final(self).current >= old(self).current,
            final(self).next_id >= old(self).next_id,
            r is Err ==> follows(*old(self), *final(self), false),
    {
        if self.check(TokenType::LESS) {
            self.advance();
            match self.consume(TokenType::IDENTIFIER, ParseMessage::ExpectSuperclassName) {
                Ok(name) => {
                    let id = self.fresh_id();
                    Ok(Some(VariableExpression { variable: name, id }))
                },
                Err(error) => Err(error),
            }
        } else {
            Ok(None)
        }
    }

    /// The name and the superclass of a class, up to the opening brace of
    /// its body.
    fn class_head(&mut self) -> (r: Result<(Token, Option<VariableExpression>), ParseError>)
        requires
            old(self).wf(),
        ensures
            (
                match r {
                    Ok(head) => Ok(
                        (
                            head.0,
                            match head.1 {
                                Some(v) => Some(variable_view(v)),
                                None => None,
                            },
                        ),
                    ),
                    Err(error) => Err(error),
                },
                final(self).cursor(),
            ) == grammar::class_head(old(self).tokens@, old(self).cursor()),
            follows(*old(self), *final(self), r is Ok),
            r matches Ok(head) ==> numbered(*old(self), *final(self), ids_of_superclass(head.1)),
    {
        let name = match self.consume(TokenType::IDENTIFIER, ParseMessage::ExpectClassName) {
            Ok(name) => name,
            Err(error) => {
                return Err(error);
            },
        };
        let super_class = match self.superclass() {
            Ok(super_class) => super_class,
            Err(error) => {
                return Err(error);
            },
        };
        match self.consume(TokenType::LEFT_BRACE, ParseMessage::ExpectLeftBraceBeforeClassBody) {
            Ok(_) => Ok((name, super_class)),
            Err(error) => Err(error),
        }
    }

    /// `classDecl := "class" IDENT ( "<" IDENT )? "{" function* "}"`, from
    /// behind the keyword.
    pub fn class_declaration(&mut self) -> (r: Result<Statement, ParseError>)
        requires
            old(self).wf(),
        ensures
            (statement_result(r), final(self).cursor()) == grammar::class_declaration(
                old(self).tokens@,
                old(self).cursor(),
            ),
            follows(*old(self), *final(self), r is Ok),
            r matches Ok(s) ==> numbered(*old(self), *final(self), ids_in(s)),
            r matches Ok(s) ==> (worded(old(self).tokens@) ==> plain_statement(s)),
        decreases old(self).tokens.len() - old(self).current, 44int,
    {
        let head = match self.class_head() {
            Ok(head) => head,
            Err(error) => {
                return Err(error);
            },
        };
        let none: Vec<FunctionStatement> = Vec::new();
        assert(functions_view(none@) =~= Seq::empty());
        assert(ids_in_functions(none@) =~= Seq::empty());
        let ghost middle = self.next_id as int;
        let methods = match self.class_methods(none, Ghost(middle)) {
            Ok(methods) => methods,
            Err(error) => {
                return Err(error);
            },
        };
        match self.consume(TokenType::RIGHT_BRACE, ParseMessage::ExpectRightBraceAfterClassBody) {
            Ok(_) => {
                proof {
                    functions_view_len(methods@);
                    fresh_join(
                        ids_of_superclass(head.1),
                        old(self).next_id as int,
                        middle,
                        ids_in_functions(methods@),
                        middle,
                        self.next_id as int,
                    );
                }
                let made = Statement::Class(
                    ClassStatement { name: head.0, super_class: head.1, methods },
                );
                assert(ids_in(made) =~= ids_of_superclass(head.1) + ids_in_functions(methods@));
                Ok(made)
            },
            Err(error) => Err(error),
        }
    }

    /// `declaration := varDecl | funDecl | classDecl | statement`
    pub fn declaration(&mut self) -> (r: Result<Statement, ParseError>)
        requires
            old(self).wf(),
        ensures
            (statement_result(r), final(self).cursor()) == grammar::declaration(
                old(self).tokens@,
                old(self).cursor(),
            ),
            follows(*old(self), *final(self), r is Ok),
            r matches Ok(s) ==> numbered(*old(self), *final(self), ids_in(s)),
            r matches Ok(s) ==> (worded(old(self).tokens@) ==> plain_statement(s)),
        decreases old(self).tokens.len() - old(self).current, 30int,
    {
        match self.peek().token_type {
            TokenType::VAR => {
                self.advance();
                self.var_declaration()
            },
            TokenType::FUN => {
                self.advance();
                match self.fun_declaration(FunctionKind::Function) {
                    Ok(function) => Ok(Statement::Function(function)),
                    Err(error) => Err(error),
                }
            },
            TokenType::CLASS => {
                self.advance();
                self.class_declaration()
            },
            _ => self.statement(),
        }
    }

    /// `program := declaration*`: parse the tokens from the cursor to the
    /// end. A declaration that fails is reported and left out, and parsing
    /// goes on from where recovery stopped. The result is the list of
    /// statements if no error was ever reported to this parser, and the
    /// first error if one was.
    pub fn parse(&mut self) -> (r: Result<Vec<Statement>, ParseError>)
        requires
            old(self).wf(),
        ensures
            final(self).wf(),
            final(self).tokens == old(self).tokens,
            reported(old(self).diagnostics@, final(self).diagnostics@),
            final(self).cursor() == grammar::program(
                old(self).tokens@,
                old(self).cursor(),
                Seq::empty(),
            ).1,
            grammar::at_end(final(self).tokens@, final(self).cursor()),
            r matches Ok(statements) ==> numbered(*old(self), *final(self), ids_in_all(statements@)),
            r matches Ok(statements) ==> (worded(old(self).tokens@) ==> plain_statements(statements@, 0)),
            match r {
                Ok(statements) => final(self).diagnostics@.len() == 0 && statements_view(
                    statements@,
                ) == grammar::program(old(self).tokens@, old(self).cursor(), Seq::empty()).0,
                Err(error) => final(self).diagnostics@.len() > 0
                    && error == final(self).diagnostics@[0],
            },
    {
        let mut statements: Vec<Statement> = Vec::new();
        assert(statements_view(statements@) =~= Seq::empty());
        assert(ids_in_all(statements@) =~= Seq::empty());
        while !self.is_at_end()
            invariant
                self.wf(),
                self.tokens == old(self).tokens,
                reported(old(self).diagnostics@, self.diagnostics@),
                self.next_id >= old(self).next_id,
                fresh(ids_in_all(statements@), old(self).next_id as int, self.next_id as int),
                worded(self.tokens@) ==> plain_statements(statements@, 0),
                grammar::program(old(self).tokens@, old(self).cursor(), Seq::empty())
                    == grammar::program(
                    self.tokens@,
                    self.cursor(),
                    statements_view(statements@),
                ),
            decreases
                    self.tokens.len() - self.current + (if grammar::at_end(
                        self.tokens@,
                        self.cursor(),
                    ) {
                        0int
                    } else {
                        1int
                    }),
        {
            let ghost before = self.next_id as int;
            match self.declaration() {
                Ok(item) => {
                    proof {
                        statements_view_push(statements@, item);
                        ids_in_all_push(statements@, item);
                        if worded(self.tokens@) {
                            plain_statements_push(statements@, item, 0);
                        }
                        fresh_join(
                            ids_in_all(statements@),
                            old(self).next_id as int,
                            before,
                            ids_in(item),
                            before,
                            self.next_id as int,
                        );
                    }
                    statements.push(item);
                },
                Err(_) => {
                    proof {
                        fresh_widen(
                            ids_in_all(statements@),
                            old(self).next_id as int,
                            before,
                            old(self).next_id as int,
                            self.next_id as int,
                        );
                    }
                },
            }
        }
        if self.diagnostics.len() == 0 {
            Ok(statements)
        } else {
            Err(self.diagnostics[0].clone())
        }
    }
}

/// What a kind of function is called in a message.
pub open spec fn kind_text(kind: FunctionKind) -> Seq<char> {
    match kind {
        FunctionKind::Function => "function"@,
        FunctionKind::Method => "method"@,
    }
}

/// The text of a message.
pub open spec fn message_text(message: ParseMessage) -> Seq<char> {
    match message {
        ParseMessage::ExpectExpression => "Expect expression."@,
        ParseMessage::ExpectRightParenAfterExpression => "Expect ')' after expression."@,
        ParseMessage::ExpectDotAfterSuper => "Expect '.' after 'super'."@,
        ParseMessage::ExpectSuperclassMethodName => "Expect superclass method name."@,
        ParseMessage::TooManyArguments => "Can't have more than 255 arguments."@,
        ParseMessage::ExpectRightParenAfterArguments => "Expect ')' after arguments."@,
        ParseMessage::ExpectPropertyName => "Expect property name after '.'."@,
        ParseMessage::InvalidAssignmentTarget => "Invalid assignment target."@,
        ParseMessage::ExpectSemicolonAfterValue => "Expect ';' after value."@,
        ParseMessage::ExpectLeftParenAfterWhile => "Expect '(' after 'while'."@,
        ParseMessage::ExpectRightParenAfterCondition => "Expect ')' after condition."@,
        ParseMessage::ExpectLeftParenAfterFor => "Expect '(' after 'for'."@,
        ParseMessage::ExpectSemicolonAfterLoopCondition => "Expect ';' after loop condition."@,
        ParseMessage::ExpectRightParenAfterForClauses => "Expect ')' after for clauses."@,
        ParseMessage::ExpectRightBraceAfterBlock => "Expect '}' after block."@,
        ParseMessage::ExpectLeftParenAfterIf => "Expect '(' after 'if'."@,
        ParseMessage::ExpectRightParenAfterIfCondition => "Expect ')' after if condition."@,
        ParseMessage::ExpectSemicolonAfterReturnValue => "Expect ';' after return value."@,
        ParseMessage::ExpectVariableName => "Expect variable name."@,
        ParseMessage::ExpectSemicolonAfterVariableDeclaration =>
            "Expect ';' after variable declaration."@,
        ParseMessage::ExpectClassName => "Expect class name."@,
        ParseMessage::ExpectSuperclassName => "Expect superclass name."@,
        ParseMessage::ExpectLeftBraceBeforeClassBody => "Expect '{' before class body."@,
        ParseMessage::ExpectRightBraceAfterClassBody => "Expect '}' after class body."@,
        ParseMessage::ExpectName(kind) => "Expect "@ + kind_text(kind) + " name."@,
        ParseMessage::ExpectLeftParenAfterName(kind) => "Expect '(' after "@ + kind_text(kind)
            + " name."@,
        ParseMessage::ExpectParameterName => "Expect parameter name."@,
        ParseMessage::TooManyParameters => "Can't have more than 255 parameters."@,
        ParseMessage::ExpectRightParenAfterParameters => "Expect ')' after parameters"@,
        ParseMessage::ExpectLeftBraceBeforeBody(kind) => "Expect '{' before "@ + kind_text(kind)
            + " body."@,
    }
}

/// The line that reports a parse error: the line of the token, the token's
/// text, or `end` for `EOF`, and the message.
pub open spec fn parse_report(error: ParseError) -> Seq<char> {
    "[line "@ + decimal(error.token.line as nat) + "] Error at "@ + (if error.token.token_type
        == TokenType::EOF {
        "end"@
    } else {
        "'"@ + error.token.token_value@ + "'"@
    }) + ": "@ + message_text(error.message)
}

impl FunctionKind {
    /// What the kind is called in a message.
    pub fn text(&self) -> (r: &'static str)
        ensures
            r@ == kind_text(*self),
    {
        match self {
            FunctionKind::Function => "function",
            FunctionKind::Method => "method",
        }
    }
}

impl ParseMessage {
    /// The text of the message.
    pub fn text(&self) -> (r: String)
        ensures
            r@ == message_text(*self),
    {
        match self {
            ParseMessage::ExpectExpression => String::from_str("Expect expression."),
            ParseMessage::ExpectRightParenAfterExpression => String::from_str(
                "Expect ')' after expression.",
            ),
            ParseMessage::ExpectDotAfterSuper => String::from_str("Expect '.' after 'super'."),
            ParseMessage::ExpectSuperclassMethodName => String::from_str(
                "Expect superclass method name.",
            ),
            ParseMessage::TooManyArguments => String::from_str(
                "Can't have more than 255 arguments.",
            ),
            ParseMessage::ExpectRightParenAfterArguments => String::from_str(
                "Expect ')' after arguments.",
            ),
            ParseMessage::ExpectPropertyName => String::from_str("Expect property name after '.'."),
            ParseMessage::InvalidAssignmentTarget => String::from_str("Invalid assignment target."),
            ParseMessage::ExpectSemicolonAfterValue => String::from_str("Expect ';' after value."),
            ParseMessage::ExpectLeftParenAfterWhile => String::from_str("Expect '(' after 'while'."),
            ParseMessage::ExpectRightParenAfterCondition => String::from_str(
                "Expect ')' after condition.",
            ),
            ParseMessage::ExpectLeftParenAfterFor => String::from_str("Expect '(' after 'for'."),
            ParseMessage::ExpectSemicolonAfterLoopCondition => String::from_str(
                "Expect ';' after loop condition.",
            ),
            ParseMessage::ExpectRightParenAfterForClauses => String::from_str(
                "Expect ')' after for clauses.",
            ),
            ParseMessage::ExpectRightBraceAfterBlock => String::from_str("Expect '}' after block."),
            ParseMessage::ExpectLeftParenAfterIf => String::from_str("Expect '(' after 'if'."),
            ParseMessage::ExpectRightParenAfterIfCondition => String::from_str(
                "Expect ')' after if condition.",
            ),
            ParseMessage::ExpectSemicolonAfterReturnValue => String::from_str(
                "Expect ';' after return value.",
            ),
            ParseMessage::ExpectVariableName => String::from_str("Expect variable name."),
            ParseMessage::ExpectSemicolonAfterVariableDeclaration => String::from_str(
                "Expect ';' after variable declaration.",
            ),
            ParseMessage::ExpectClassName => String::from_str("Expect class name."),
            ParseMessage::ExpectSuperclassName => String::from_str("Expect superclass name."),
            ParseMessage::ExpectLeftBraceBeforeClassBody => String::from_str(
                "Expect '{' before class body.",
            ),
            ParseMessage::ExpectRightBraceAfterClassBody => String::from_str(
                "Expect '}' after class body.",
            ),
            ParseMessage::ExpectName(kind) => {
                let mut text = String::from_str("Expect ");
                write_text(&mut text, kind.text());
                write_text(&mut text, " name.");
                text
            },
            ParseMessage::ExpectLeftParenAfterName(kind) => {
                let mut text = String::from_str("Expect '(' after ");
                write_text(&mut text, kind.text());
                write_text(&mut text, " name.");
                text
            },
            ParseMessage::ExpectParameterName => String::from_str("Expect parameter name."),
            ParseMessage::TooManyParameters => String::from_str(
                "Can't have more than 255 parameters.",
            ),
            ParseMessage::ExpectRightParenAfterParameters => String::from_str(
                "Expect ')' after parameters",
            ),
            ParseMessage::ExpectLeftBraceBeforeBody(kind) => {
                let mut text = String::from_str("Expect '{' before ");
                write_text(&mut text, kind.text());
                write_text(&mut text, " body.");
                text
            },
        }
    }
}

impl ParseError {
    /// The line that reports the error.
    pub fn report(&self) -> (r: String)
        ensures
            r@ == parse_report(*self),
    {
        let mut text = String::from_str("[line ");
        write_decimal(&mut text, self.token.line as u64);
        write_text(&mut text, "] Error at ");
        if self.token.token_type == TokenType::EOF {
            write_text(&mut text, "end");
        } else {
            write_text(&mut text, "'");
            write_text(&mut text, self.token.token_value.as_str());
            write_text(&mut text, "'");
        }
        write_text(&mut text, ": ");
        let message = self.message.text();
        write_text(&mut text, message.as_str());
        assert(text@ =~= parse_report(*self));
        text
    }
}

} // verus!
