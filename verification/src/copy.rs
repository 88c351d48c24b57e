//! Copies of trees.
//!
//! A tree may hold vectors, and a copy of a vector is another vector: so a
//! copy of a tree is not the same value as the tree, but it has the same
//! view.

use vstd::prelude::*;
use crate::token::Token;
use crate::ast::{
    AssignmentExpression, BinaryExpression, BlockStatement, CallExpression, ClassStatement,
    Expression, ExpressionStatement, FunctionStatement, GetExpression, Grouping, IfStatement,
    Literal, LogicalExpression, PrintStatement, ReturnStatement, SetExpression, Statement,
    SuperExpression, ThisExpression, UnaryExpression, VariableExpression, VariableStatement,
    WhileStatement, expression_view, expressions_view, function_view, functions_view,
    optional_expression_view, statement_view, statements_view,
};

verus! {

/// Lists of expressions of which each has the view of the one at its place
/// in the other have the same views.
pub proof fn expressions_view_pointwise(a: Seq<Expression>, b: Seq<Expression>)
    requires
        a.len() == b.len(),
        forall|i: int| 0 <= i < a.len() ==> expression_view(a[i]) == expression_view(b[i]),
    ensures
        expressions_view(a) == expressions_view(b),
    decreases a.len(),
{
    if a.len() > 0 {
        expressions_view_pointwise(a.drop_last(), b.drop_last());
    }
}

/// The same, for statements.
pub proof fn statements_view_pointwise(a: Seq<Statement>, b: Seq<Statement>)
    requires
        a.len() == b.len(),
        forall|i: int| 0 <= i < a.len() ==> statement_view(a[i]) == statement_view(b[i]),
    ensures
        statements_view(a) == statements_view(b),
    decreases a.len(),
{
    if a.len() > 0 {
        statements_view_pointwise(a.drop_last(), b.drop_last());
    }
}

/// The same, for function declarations.
pub proof fn functions_view_pointwise(a: Seq<FunctionStatement>, b: Seq<FunctionStatement>)
    requires
        a.len() == b.len(),
        forall|i: int| 0 <= i < a.len() ==> function_view(a[i]) == function_view(b[i]),
    ensures
        functions_view(a) == functions_view(b),
    decreases a.len(),
{
    if a.len() > 0 {
        functions_view_pointwise(a.drop_last(), b.drop_last());
    }
}

/// A copy of a list of tokens.
pub fn clone_tokens(list: &Vec<Token>) -> (r: Vec<Token>)
    ensures
        r@ == list@,
{
    let mut copy: Vec<Token> = Vec::new();
    let mut i: usize = 0;
    while i < list.len()
        invariant
            i <= list@.len(),
            copy@ == list@.subrange(0, i as int),
        decreases list@.len() - i,
    {
        copy.push(list[i].clone());
        assert(copy@ =~= list@.subrange(0, i + 1));
        i += 1;
    }
    assert(copy@ =~= list@);
    copy
}

/// A copy of a list of expressions.
pub fn clone_expressions(list: &Vec<Expression>) -> (r: Vec<Expression>)
    ensures
        expressions_view(r@) == expressions_view(list@),
    decreases list,
{
    let mut copy: Vec<Expression> = Vec::new();
    let mut i: usize = 0;
    while i < list.len()
        invariant
            i <= list@.len(),
            copy@.len() == i,
            forall|j: int| 0 <= j < i ==> expression_view(copy@[j]) == expression_view(list@[j]),
        decreases list@.len() - i,
    {
        copy.push(list[i].clone());
        i += 1;
    }
    proof {
        expressions_view_pointwise(copy@, list@);
    }
    copy
}

/// A copy of a list of statements.
pub fn clone_statements(list: &Vec<Statement>) -> (r: Vec<Statement>)
    ensures
        statements_view(r@) == statements_view(list@),
    decreases list,
{
    let mut copy: Vec<Statement> = Vec::new();
    let mut i: usize = 0;
    while i < list.len()
        invariant
            i <= list@.len(),
            copy@.len() == i,
            forall|j: int| 0 <= j < i ==> statement_view(copy@[j]) == statement_view(list@[j]),
        decreases list@.len() - i,
    {
        copy.push(list[i].clone());
        i += 1;
    }
    proof {
        statements_view_pointwise(copy@, list@);
    }
    copy
}

/// A copy of a list of function declarations.
pub fn clone_functions(list: &Vec<FunctionStatement>) -> (r: Vec<FunctionStatement>)
    ensures
        functions_view(r@) == functions_view(list@),
    decreases list,
{
    let mut copy: Vec<FunctionStatement> = Vec::new();
    let mut i: usize = 0;
    while i < list.len()
        invariant
            i <= list@.len(),
            copy@.len() == i,
            forall|j: int| 0 <= j < i ==> function_view(copy@[j]) == function_view(list@[j]),
        decreases list@.len() - i,
    {
        copy.push(list[i].clone());
        i += 1;
    }
    proof {
        functions_view_pointwise(copy@, list@);
    }
    copy
}

/// A copy of an optional expression.
pub fn clone_optional(e: &Option<Expression>) -> (r: Option<Expression>)
    ensures
        optional_expression_view(r) == optional_expression_view(*e),
    decreases e,
{
    match e {
        Some(e) => Some(e.clone()),
        None => None,
    }
}

impl Clone for Literal {
    fn clone(&self) -> (r: Self)
        ensures
            r == *self,
    {
        Literal { value: self.value.clone(), id: self.id }
    }
}

impl Clone for VariableExpression {
    fn clone(&self) -> (r: Self)
        ensures
            r == *self,
    {
        VariableExpression { variable: self.variable.clone(), id: self.id }
    }
}

impl Clone for ThisExpression {
    fn clone(&self) -> (r: Self)
        ensures
            r == *self,
    {
        ThisExpression { value: self.value.clone(), id: self.id }
    }
}

impl Clone for SuperExpression {
    fn clone(&self) -> (r: Self)
        ensures
            r == *self,
    {
        SuperExpression { keyword: self.keyword.clone(), method: self.method.clone(), id: self.id }
    }
}

impl Clone for Grouping {
    fn clone(&self) -> (r: Self)
        ensures
            expression_view(Expression::Grouping(r)) == expression_view(
                Expression::Grouping(*self),
            ),
        decreases self,
    {
        Grouping { expression: Box::new((*self.expression).clone()), id: self.id }
    }
}

impl Clone for UnaryExpression {
    fn clone(&self) -> (r: Self)
        ensures
            expression_view(Expression::Unary(r)) == expression_view(Expression::Unary(*self)),
        decreases self,
    {
        UnaryExpression {
            operator: self.operator.clone(),
            expression: Box::new((*self.expression).clone()),
            id: self.id,
        }
    }
}

impl Clone for BinaryExpression {
    fn clone(&self) -> (r: Self)
        ensures
            expression_view(Expression::Binary(r)) == expression_view(Expression::Binary(*self)),
        decreases self,
    {
        BinaryExpression {
            left: Box::new((*self.left).clone()),
            right: Box::new((*self.right).clone()),
            operator: self.operator.clone(),
            id: self.id,
        }
    }
}

impl Clone for LogicalExpression {
    fn clone(&self) -> (r: Self)
        ensures
            expression_view(Expression::Logical(r)) == expression_view(
                Expression::Logical(*self),
            ),
        decreases self,
    {
        LogicalExpression {
            left: Box::new((*self.left).clone()),
            operator: self.operator.clone(),
            right: Box::new((*self.right).clone()),
            id: self.id,
        }
    }
}

impl Clone for AssignmentExpression {
    fn clone(&self) -> (r: Self)
        ensures
            expression_view(Expression::Assignment(r)) == expression_view(
                Expression::Assignment(*self),
            ),
        decreases self,
    {
        AssignmentExpression {
            name: self.name.clone(),
            value: Box::new((*self.value).clone()),
            id: self.id,
        }
    }
}

impl Clone for CallExpression {
    fn clone(&self) -> (r: Self)
        ensures
            expression_view(Expression::Call(r)) == expression_view(Expression::Call(*self)),
        decreases self,
    {
        CallExpression {
            callee: Box::new((*self.callee).clone()),
            paren: self.paren.clone(),
            arguments: clone_expressions(&self.arguments),
            id: self.id,
        }
    }
}

impl Clone for GetExpression {
    fn clone(&self) -> (r: Self)
        ensures
            expression_view(Expression::Get(r)) == expression_view(Expression::Get(*self)),
        decreases self,
    {
        GetExpression {
            expression: Box::new((*self.expression).clone()),
            name: self.name.clone(),
            id: self.id,
        }
    }
}

impl Clone for SetExpression {
    fn clone(&self) -> (r: Self)
        ensures
            expression_view(Expression::SetField(r)) == expression_view(
                Expression::SetField(*self),
            ),
        decreases self,
    {
        SetExpression {
            expression: Box::new((*self.expression).clone()),
            name: self.name.clone(),
            value: Box::new((*self.value).clone()),
            id: self.id,
        }
    }
}

impl Clone for Expression {
    fn clone(&self) -> (r: Self)
        ensures
            expression_view(r) == expression_view(*self),
        decreases self,
    {
        match self {
            Expression::Literal(n) => Expression::Literal(n.clone()),
            Expression::Grouping(n) => Expression::Grouping(n.clone()),
            Expression::Unary(n) => Expression::Unary(n.clone()),
            Expression::Binary(n) => Expression::Binary(n.clone()),
            Expression::Logical(n) => Expression::Logical(n.clone()),
            Expression::Variable(n) => Expression::Variable(n.clone()),
            Expression::Assignment(n) => Expression::Assignment(n.clone()),
            Expression::Call(n) => Expression::Call(n.clone()),
            Expression::Get(n) => Expression::Get(n.clone()),
            Expression::SetField(n) => Expression::SetField(n.clone()),
            Expression::This(n) => Expression::This(n.clone()),
            Expression::Super(n) => Expression::Super(n.clone()),
        }
    }
}

impl Clone for ExpressionStatement {
    fn clone(&self) -> (r: Self)
        ensures
            statement_view(Statement::Expression(r)) == statement_view(
                Statement::Expression(*self),
            ),
        decreases self,
    {
        ExpressionStatement { expression: self.expression.clone() }
    }
}

impl Clone for PrintStatement {
    fn clone(&self) -> (r: Self)
        ensures
            statement_view(Statement::Print(r)) == statement_view(Statement::Print(*self)),
        decreases self,
    {
        PrintStatement { expression: self.expression.clone() }
    }
}

impl Clone for VariableStatement {
    fn clone(&self) -> (r: Self)
        ensures
            statement_view(Statement::Variable(r)) == statement_view(Statement::Variable(*self)),
        decreases self,
    {
        VariableStatement {
            name: self.name.clone(),
            initializer: clone_optional(&self.initializer),
        }
    }
}

impl Clone for BlockStatement {
    fn clone(&self) -> (r: Self)
        ensures
            statement_view(Statement::Block(r)) == statement_view(Statement::Block(*self)),
        decreases self,
    {
        BlockStatement { statements: clone_statements(&self.statements) }
    }
}

impl Clone for IfStatement {
    fn clone(&self) -> (r: Self)
        ensures
            statement_view(Statement::If(r)) == statement_view(Statement::If(*self)),
        decreases self,
    {
        IfStatement {
            condition: self.condition.clone(),
            then_statement: Box::new((*self.then_statement).clone()),
            else_statement: match &self.else_statement {
                Some(other) => Some(Box::new((**other).clone())),
                None => None,
            },
        }
    }
}

impl Clone for WhileStatement {
    fn clone(&self) -> (r: Self)
        ensures
            statement_view(Statement::While(r)) == statement_view(Statement::While(*self)),
        decreases self,
    {
        WhileStatement { condition: self.condition.clone(), body: Box::new((*self.body).clone()) }
    }
}

impl Clone for FunctionStatement {
    fn clone(&self) -> (r: Self)
        ensures
            function_view(r) == function_view(*self),
        decreases self,
    {
        FunctionStatement {
            name: self.name.clone(),
            parameters: clone_tokens(&self.parameters),
            body: clone_statements(&self.body),
        }
    }
}

impl Clone for ReturnStatement {
    fn clone(&self) -> (r: Self)
        ensures
            statement_view(Statement::Return(r)) == statement_view(Statement::Return(*self)),
        decreases self,
    {
        ReturnStatement { keyword: self.keyword.clone(), value: clone_optional(&self.value) }
    }
}

impl Clone for ClassStatement {
    fn clone(&self) -> (r: Self)
        ensures
            statement_view(Statement::Class(r)) == statement_view(Statement::Class(*self)),
        decreases self,
    {
        ClassStatement {
            name: self.name.clone(),
            super_class: match &self.super_class {
                Some(v) => Some(v.clone()),
                None => None,
            },
            methods: clone_functions(&self.methods),
        }
    }
}

impl Clone for Statement {
    fn clone(&self) -> (r: Self)
        ensures
            statement_view(r) == statement_view(*self),
        decreases self,
    {
        match self {
            Statement::Expression(n) => Statement::Expression(n.clone()),
            Statement::Print(n) => Statement::Print(n.clone()),
            Statement::Variable(n) => Statement::Variable(n.clone()),
            Statement::Block(n) => Statement::Block(n.clone()),
            Statement::If(n) => Statement::If(n.clone()),
            Statement::While(n) => Statement::While(n.clone()),
            Statement::Function(n) => Statement::Function(n.clone()),
            Statement::Return(n) => Statement::Return(n.clone()),
            Statement::Class(n) => Statement::Class(n.clone()),
        }
    }
}

} // verus!
