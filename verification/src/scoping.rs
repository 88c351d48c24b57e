//! Static resolution, as mathematical functions on a stack of scopes.
//!
//! A scope maps each name declared in it to whether its initializer has
//! been passed. Resolution walks the tree once and records, for every
//! reference that some scope binds, how many scopes lie between the
//! reference and its binding. The resolver is proved to compute exactly
//! these functions.

use vstd::prelude::*;
use crate::token::Token;
use crate::ast::{
    ClassStatement, Expression, FunctionStatement, Statement, VariableExpression,
};

verus! {

/// The kind of function whose body is being resolved.
#[allow(non_camel_case_types)]
#[derive(PartialEq, Eq, Structural, Clone, Copy, Debug)]
pub enum FunctionType {
    NONE,
    FUNCTION,
    METHOD,
    INITIALIZER,
}

/// The kind of class whose body is being resolved.
#[allow(non_camel_case_types)]
#[derive(PartialEq, Eq, Structural, Clone, Copy, Debug)]
pub enum ClassType {
    NONE,
    CLASS,
    SUBCLASS,
}

/// A static error.
#[derive(PartialEq, Eq, Structural, Clone, Copy, Debug)]
pub enum ResolveMessage {
    ReadInOwnInitializer,
    AlreadyDeclared,
    ReturnFromTopLevel,
    ReturnValueFromInitializer,
    ThisOutsideClass,
    SuperOutsideClass,
    SuperWithoutSuperclass,
    InheritFromItself,
}

/// A static error and the token at which it was found.
#[derive(Debug)]
pub struct ResolveError {
    pub token: Token,
    pub message: ResolveMessage,
}

/// A scope: the names declared in it, each with whether it is defined yet.
pub type Scope = Map<Seq<char>, bool>;

/// The state of a resolution.
pub struct Resolution {
    /// The scopes that are open, the innermost last. The global scope is
    /// not among them.
    pub scopes: Seq<Scope>,
    /// The side-table: for the identity of each reference that a scope
    /// binds, the number of scopes between the reference and the binding.
    pub locals: Map<u64, usize>,
    pub current_function: FunctionType,
    pub current_class: ClassType,
}

/// What a step of the resolution yields: the state after it, or the first
/// error.
pub type Resolved = Result<Resolution, ResolveError>;

/// The state with one more scope, empty, innermost.
pub open spec fn begin_scope(s: Resolution) -> Resolution {
    Resolution { scopes: s.scopes.push(Map::empty()), ..s }
}

/// The state without its innermost scope.
pub open spec fn end_scope(s: Resolution) -> Resolution {
    if s.scopes.len() == 0 {
        s
    } else {
        Resolution { scopes: s.scopes.drop_last(), ..s }
    }
}

/// The state with a name bound in the innermost scope.
pub open spec fn bind(s: Resolution, name: Seq<char>, defined: bool) -> Resolution {
    Resolution {
        scopes: s.scopes.update(s.scopes.len() - 1, s.scopes.last().insert(name, defined)),
        ..s
    }
}

/// Declare a name in the innermost scope, not yet defined. Outside every
/// scope nothing is declared; a name that the scope holds already is an
/// error.
pub open spec fn declare(s: Resolution, name: Token) -> Resolved {
    if s.scopes.len() == 0 {
        Ok(s)
    } else if s.scopes.last().contains_key(name.token_value@) {
        Err(ResolveError { token: name, message: ResolveMessage::AlreadyDeclared })
    } else {
        Ok(bind(s, name.token_value@, false))
    }
}

/// Mark a name in the innermost scope as defined.
pub open spec fn define(s: Resolution, name: Token) -> Resolution {
    if s.scopes.len() == 0 {
        s
    } else {
        bind(s, name.token_value@, true)
    }
}

/// The number of scopes to skip, counted from `depth` on, to reach the
/// innermost scope that holds the name, if any does.
pub open spec fn innermost_from(scopes: Seq<Scope>, name: Seq<char>, depth: int) -> Option<usize>
    decreases scopes.len() - depth,
{
    if depth < 0 || depth >= scopes.len() {
        None
    } else if scopes[scopes.len() - 1 - depth].contains_key(name) {
        Some(depth as usize)
    } else {
        innermost_from(scopes, name, depth + 1)
    }
}

/// The number of scopes between a reference and the innermost scope that
/// holds its name, if any does.
pub open spec fn innermost(scopes: Seq<Scope>, name: Seq<char>) -> Option<usize> {
    innermost_from(scopes, name, 0)
}

/// Record the depth of a reference, if a scope binds its name; a name that
/// no scope binds is left to the globals.
pub open spec fn resolve_local(s: Resolution, id: u64, name: Token) -> Resolution {
    match innermost(s.scopes, name.token_value@) {
        Some(depth) => Resolution { locals: s.locals.insert(id, depth), ..s },
        None => s,
    }
}

/// Whether the innermost scope holds the name as declared but not yet
/// defined.
pub open spec fn in_own_initializer(s: Resolution, name: Seq<char>) -> bool {
    s.scopes.len() > 0 && s.scopes.last().contains_key(name) && !s.scopes.last()[name]
}

/// A read of a name.
pub open spec fn resolve_variable(s: Resolution, v: VariableExpression) -> Resolved {
    if in_own_initializer(s, v.variable.token_value@) {
        Err(ResolveError { token: v.variable, message: ResolveMessage::ReadInOwnInitializer })
    } else {
        Ok(resolve_local(s, v.id, v.variable))
    }
}

/// An expression.
pub open spec fn resolve_expression(s: Resolution, e: Expression) -> Resolved
    decreases e, 0int,
{
    match e {
        Expression::Literal(_) => Ok(s),
        Expression::Grouping(n) => resolve_expression(s, *n.expression),
        Expression::Unary(n) => resolve_expression(s, *n.expression),
        Expression::Binary(n) => match resolve_expression(s, *n.left) {
            Ok(s1) => resolve_expression(s1, *n.right),
            Err(error) => Err(error),
        },
        Expression::Logical(n) => match resolve_expression(s, *n.left) {
            Ok(s1) => resolve_expression(s1, *n.right),
            Err(error) => Err(error),
        },
        Expression::Variable(n) => resolve_variable(s, n),
        Expression::Assignment(n) => match resolve_expression(s, *n.value) {
            Ok(s1) => Ok(resolve_local(s1, n.id, n.name)),
            Err(error) => Err(error),
        },
        Expression::Call(n) => match resolve_expression(s, *n.callee) {
            Ok(s1) => resolve_expressions(s1, n.arguments@, 0),
            Err(error) => Err(error),
        },
        Expression::Get(n) => resolve_expression(s, *n.expression),
        Expression::SetField(n) => match resolve_expression(s, *n.expression) {
            Ok(s1) => resolve_expression(s1, *n.value),
            Err(error) => Err(error),
        },
        Expression::This(n) => if s.current_class == ClassType::NONE {
            Err(ResolveError { token: n.value, message: ResolveMessage::ThisOutsideClass })
        } else {
            Ok(resolve_local(s, n.id, n.value))
        },
        Expression::Super(n) => if s.current_class == ClassType::NONE {
            Err(ResolveError { token: n.keyword, message: ResolveMessage::SuperOutsideClass })
        } else if s.current_class != ClassType::SUBCLASS {
            Err(
                ResolveError {
                    token: n.keyword,
                    message: ResolveMessage::SuperWithoutSuperclass,
                },
            )
        } else {
            Ok(resolve_local(s, n.id, n.keyword))
        },
    }
}

/// The expressions of a list from an index on, in order.
pub open spec fn resolve_expressions(s: Resolution, list: Seq<Expression>, from: int) -> Resolved
    decreases list, list.len() - from,
{
    if from < 0 || from >= list.len() {
        Ok(s)
    } else {
        match resolve_expression(s, list[from]) {
            Ok(s1) => resolve_expressions(s1, list, from + 1),
            Err(error) => Err(error),
        }
    }
}

/// An optional expression.
pub open spec fn resolve_optional(s: Resolution, e: Option<Expression>) -> Resolved
    decreases e, 1int,
{
    match e {
        Some(e) => resolve_expression(s, e),
        None => Ok(s),
    }
}

/// The parameters of a function from an index on: each is declared and
/// defined.
pub open spec fn resolve_parameters(s: Resolution, list: Seq<Token>, from: int) -> Resolved
    decreases list.len() - from,
{
    if from < 0 || from >= list.len() {
        Ok(s)
    } else {
        match declare(s, list[from]) {
            Ok(s1) => resolve_parameters(define(s1, list[from]), list, from + 1),
            Err(error) => Err(error),
        }
    }
}

/// The body of a function, in a scope of its own that holds the
/// parameters.
pub open spec fn resolve_function(
    s: Resolution,
    f: FunctionStatement,
    kind: FunctionType,
) -> Resolved
    decreases f, 0int,
{
    let inner = begin_scope(Resolution { current_function: kind, ..s });
    match resolve_parameters(inner, f.parameters@, 0) {
        Ok(s1) => match resolve_statements(s1, f.body@, 0) {
            Ok(s2) => Ok(Resolution { current_function: s.current_function, ..end_scope(s2) }),
            Err(error) => Err(error),
        },
        Err(error) => Err(error),
    }
}

/// The kind of a method: an initializer if it is called `init`.
pub open spec fn method_kind(f: FunctionStatement) -> FunctionType {
    if f.name.token_value@ == "init"@ {
        FunctionType::INITIALIZER
    } else {
        FunctionType::METHOD
    }
}

/// The methods of a class from an index on.
pub open spec fn resolve_methods(s: Resolution, list: Seq<FunctionStatement>, from: int) -> Resolved
    decreases list, list.len() - from,
{
    if from < 0 || from >= list.len() {
        Ok(s)
    } else {
        match resolve_function(s, list[from], method_kind(list[from])) {
            Ok(s1) => resolve_methods(s1, list, from + 1),
            Err(error) => Err(error),
        }
    }
}

/// The superclass of a class: it may not be the class itself, and is read
/// as a name.
pub open spec fn resolve_superclass(
    s: Resolution,
    name: Token,
    super_class: Option<VariableExpression>,
) -> Resolved {
    match super_class {
        Some(v) => if name.token_value@ == v.variable.token_value@ {
            Err(ResolveError { token: v.variable, message: ResolveMessage::InheritFromItself })
        } else {
            resolve_variable(s, v)
        },
        None => Ok(s),
    }
}

/// The scopes in which the methods of a class are resolved: one that holds
/// `super` if there is a superclass, and in it one that holds `this`.
pub open spec fn enter_class(s: Resolution, has_superclass: bool) -> Resolution {
    let outer = if has_superclass {
        let opened = begin_scope(s);
        Resolution { current_class: ClassType::SUBCLASS, ..bind(opened, "super"@, true) }
    } else {
        s
    };
    bind(begin_scope(outer), "this"@, true)
}

/// A class declaration.
pub open spec fn resolve_class(s: Resolution, c: ClassStatement) -> Resolved
    decreases c, 0int,
{
    match declare(Resolution { current_class: ClassType::CLASS, ..s }, c.name) {
        Ok(s1) => match resolve_superclass(define(s1, c.name), c.name, c.super_class) {
            Ok(s2) => match resolve_methods(enter_class(s2, c.super_class is Some), c.methods@, 0) {
                Ok(s3) => {
                    let closed = end_scope(s3);
                    let closed = if c.super_class is Some {
                        end_scope(closed)
                    } else {
                        closed
                    };
                    Ok(Resolution { current_class: s.current_class, ..closed })
                },
                Err(error) => Err(error),
            },
            Err(error) => Err(error),
        },
        Err(error) => Err(error),
    }
}

/// A statement.
pub open spec fn resolve_statement(s: Resolution, statement: Statement) -> Resolved
    decreases statement, 1int,
{
    match statement {
        Statement::Expression(n) => resolve_expression(s, n.expression),
        Statement::Print(n) => resolve_expression(s, n.expression),
        Statement::Variable(n) => match declare(s, n.name) {
            Ok(s1) => match resolve_optional(s1, n.initializer) {
                Ok(s2) => Ok(define(s2, n.name)),
                Err(error) => Err(error),
            },
            Err(error) => Err(error),
        },
        Statement::Block(n) => match resolve_statements(begin_scope(s), n.statements@, 0) {
            Ok(s1) => Ok(end_scope(s1)),
            Err(error) => Err(error),
        },
        Statement::If(n) => match resolve_expression(s, n.condition) {
            Ok(s1) => match resolve_statement(s1, *n.then_statement) {
                Ok(s2) => match n.else_statement {
                    Some(other) => resolve_statement(s2, *other),
                    None => Ok(s2),
                },
                Err(error) => Err(error),
            },
            Err(error) => Err(error),
        },
        Statement::While(n) => match resolve_statement(s, *n.body) {
            Ok(s1) => resolve_expression(s1, n.condition),
            Err(error) => Err(error),
        },
        Statement::Function(n) => match declare(s, n.name) {
            Ok(s1) => resolve_function(define(s1, n.name), n, FunctionType::FUNCTION),
            Err(error) => Err(error),
        },
        Statement::Return(n) => if s.current_function == FunctionType::NONE {
            Err(ResolveError { token: n.keyword, message: ResolveMessage::ReturnFromTopLevel })
        } else if n.value is Some && s.current_function == FunctionType::INITIALIZER {
            Err(
                ResolveError {
                    token: n.keyword,
                    message: ResolveMessage::ReturnValueFromInitializer,
                },
            )
        } else {
            resolve_optional(s, n.value)
        },
        Statement::Class(n) => resolve_class(s, n),
    }
}

/// The statements of a list from an index on, in order.
pub open spec fn resolve_statements(s: Resolution, list: Seq<Statement>, from: int) -> Resolved
    decreases list, list.len() - from,
{
    if from < 0 || from >= list.len() {
        Ok(s)
    } else {
        match resolve_statement(s, list[from]) {
            Ok(s1) => resolve_statements(s1, list, from + 1),
            Err(error) => Err(error),
        }
    }
}

/// Whether the scope a number of scopes out from the innermost holds a
/// name.
pub open spec fn holds_at(scopes: Seq<Scope>, depth: int, name: Seq<char>) -> bool {
    0 <= depth < scopes.len() && scopes[scopes.len() - 1 - depth].contains_key(name)
}

/// The depth that is recorded for a reference is that of the innermost
/// scope that holds its name: that scope holds the name, and no scope
/// nearer to the reference does. Where no depth is recorded, no scope
/// holds the name.
pub proof fn innermost_is_nearest(scopes: Seq<Scope>, name: Seq<char>)
    requires
        scopes.len() <= usize::MAX,
    ensures
        match innermost(scopes, name) {
            Some(depth) => holds_at(scopes, depth as int, name) && forall|nearer: int|
                0 <= nearer < depth ==> !#[trigger] holds_at(scopes, nearer, name),
            None => forall|depth: int| !#[trigger] holds_at(scopes, depth, name),
        },
{
    innermost_from_is_nearest(scopes, name, 0);
}

/// The same, for the search from a depth on.
pub proof fn innermost_from_is_nearest(scopes: Seq<Scope>, name: Seq<char>, from: int)
    requires
        0 <= from,
        scopes.len() <= usize::MAX,
    ensures
        match innermost_from(scopes, name, from) {
            Some(depth) => from <= depth && holds_at(scopes, depth as int, name) && forall|
                nearer: int,
            |
                from <= nearer < depth ==> !#[trigger] holds_at(scopes, nearer, name),
            None => forall|depth: int| from <= depth ==> !#[trigger] holds_at(scopes, depth, name),
        },
    decreases scopes.len() - from,
{
    if from < scopes.len() && !scopes[scopes.len() - 1 - from].contains_key(name) {
        innermost_from_is_nearest(scopes, name, from + 1);
        assert(!holds_at(scopes, from, name));
    }
}

} // verus!
