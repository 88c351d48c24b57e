//! The abstract syntax tree, and its mathematical view.
//!
//! Expressions and statements are tagged unions over one struct per kind of
//! node. Every expression node carries an identity by which the resolver's
//! side-table finds it again.

use vstd::prelude::*;
use crate::token::Token;
use crate::value::LiteralValue;

verus! {

/// An atomic constant.
#[derive(Debug)]
pub struct Literal {
    pub value: LiteralValue,
    pub id: u64,
}

/// A parenthesized expression.
#[derive(Debug)]
pub struct Grouping {
    pub expression: Box<Expression>,
    pub id: u64,
}

/// `!` or `-` applied to an operand.
#[derive(Debug)]
pub struct UnaryExpression {
    pub operator: Token,
    pub expression: Box<Expression>,
    pub id: u64,
}

/// An arithmetic, comparison or equality operator between two operands.
#[derive(Debug)]
pub struct BinaryExpression {
    pub left: Box<Expression>,
    pub right: Box<Expression>,
    pub operator: Token,
    pub id: u64,
}

/// A short-circuit `and` or `or`.
#[derive(Debug)]
pub struct LogicalExpression {
    pub left: Box<Expression>,
    pub operator: Token,
    pub right: Box<Expression>,
    pub id: u64,
}

/// A read of a name.
#[derive(Debug)]
pub struct VariableExpression {
    pub variable: Token,
    pub id: u64,
}

/// A write to a name.
#[derive(Debug)]
pub struct AssignmentExpression {
    pub name: Token,
    pub value: Box<Expression>,
    pub id: u64,
}

/// A call of a function, a class or a method.
#[derive(Debug)]
pub struct CallExpression {
    pub callee: Box<Expression>,
    pub paren: Token,
    pub arguments: Vec<Expression>,
    pub id: u64,
}

/// A read of a property.
#[derive(Debug)]
pub struct GetExpression {
    pub expression: Box<Expression>,
    pub name: Token,
    pub id: u64,
}

/// A write to a property.
#[derive(Debug)]
pub struct SetExpression {
    pub expression: Box<Expression>,
    pub name: Token,
    pub value: Box<Expression>,
    pub id: u64,
}

/// A reference to the current instance.
#[derive(Debug)]
pub struct ThisExpression {
    pub value: Token,
    pub id: u64,
}

/// A reference to a method of the superclass.
#[derive(Debug)]
pub struct SuperExpression {
    pub keyword: Token,
    pub method: Token,
    pub id: u64,
}

/// An expression.
#[derive(Debug)]
pub enum Expression {
    Literal(Literal),
    Grouping(Grouping),
    Unary(UnaryExpression),
    Binary(BinaryExpression),
    Logical(LogicalExpression),
    Variable(VariableExpression),
    Assignment(AssignmentExpression),
    Call(CallExpression),
    Get(GetExpression),
    SetField(SetExpression),
    This(ThisExpression),
    Super(SuperExpression),
}

/// An expression evaluated for its effect.
#[derive(Debug)]
pub struct ExpressionStatement {
    pub expression: Expression,
}

/// `print` of an expression.
#[derive(Debug)]
pub struct PrintStatement {
    pub expression: Expression,
}

/// A variable declaration, with or without an initializer.
#[derive(Debug)]
pub struct VariableStatement {
    pub name: Token,
    pub initializer: Option<Expression>,
}

/// A block of statements with a scope of its own.
#[derive(Debug)]
pub struct BlockStatement {
    pub statements: Vec<Statement>,
}

/// A conditional.
#[derive(Debug)]
pub struct IfStatement {
    pub condition: Expression,
    pub then_statement: Box<Statement>,
    pub else_statement: Option<Box<Statement>>,
}

/// A loop.
#[derive(Debug)]
pub struct WhileStatement {
    pub condition: Expression,
    pub body: Box<Statement>,
}

/// A function or method declaration.
#[derive(Debug)]
pub struct FunctionStatement {
    pub name: Token,
    pub parameters: Vec<Token>,
    pub body: Vec<Statement>,
}

/// A `return`, with or without a value.
#[derive(Debug)]
pub struct ReturnStatement {
    pub keyword: Token,
    pub value: Option<Expression>,
}

/// A class declaration.
#[derive(Debug)]
pub struct ClassStatement {
    pub name: Token,
    pub super_class: Option<VariableExpression>,
    pub methods: Vec<FunctionStatement>,
}

/// The parts of a `for` loop as they were written. The parser turns them
/// into a block and a `while` loop at once; no `for` node reaches the tree.
#[derive(Debug)]
pub struct ForStatement {
    pub initializer: Option<Box<Statement>>,
    pub condition: Option<Expression>,
    pub increment: Option<Expression>,
    pub body: Box<Statement>,
}

/// A statement.
#[derive(Debug)]
pub enum Statement {
    Expression(ExpressionStatement),
    Print(PrintStatement),
    Variable(VariableStatement),
    Block(BlockStatement),
    If(IfStatement),
    While(WhileStatement),
    Function(FunctionStatement),
    Return(ReturnStatement),
    Class(ClassStatement),
}

/// The mathematical view of an expression: the same tree, with sequences in
/// the place of vectors.
#[allow(inconsistent_fields)]
pub enum ExpressionView {
    Literal { value: LiteralValue, id: u64 },
    Grouping { expression: Box<ExpressionView>, id: u64 },
    Unary { operator: Token, expression: Box<ExpressionView>, id: u64 },
    Binary { left: Box<ExpressionView>, operator: Token, right: Box<ExpressionView>, id: u64 },
    Logical { left: Box<ExpressionView>, operator: Token, right: Box<ExpressionView>, id: u64 },
    Variable { variable: Token, id: u64 },
    Assignment { name: Token, value: Box<ExpressionView>, id: u64 },
    Call { callee: Box<ExpressionView>, paren: Token, arguments: Seq<ExpressionView>, id: u64 },
    Get { expression: Box<ExpressionView>, name: Token, id: u64 },
    SetField { expression: Box<ExpressionView>, name: Token, value: Box<ExpressionView>, id: u64 },
    This { value: Token, id: u64 },
    Super { keyword: Token, method: Token, id: u64 },
}

/// The mathematical view of a function declaration.
pub struct FunctionView {
    pub name: Token,
    pub parameters: Seq<Token>,
    pub body: Seq<StatementView>,
}

/// The mathematical view of a statement.
#[allow(inconsistent_fields)]
pub enum StatementView {
    Expression { expression: ExpressionView },
    Print { expression: ExpressionView },
    Variable { name: Token, initializer: Option<ExpressionView> },
    Block { statements: Seq<StatementView> },
    If {
        condition: ExpressionView,
        then_statement: Box<StatementView>,
        else_statement: Option<Box<StatementView>>,
    },
    While { condition: ExpressionView, body: Box<StatementView> },
    Function { function: FunctionView },
    Return { keyword: Token, value: Option<ExpressionView> },
    Class { name: Token, super_class: Option<ExpressionView>, methods: Seq<FunctionView> },
}

/// The view of an expression.
pub open spec fn expression_view(e: Expression) -> ExpressionView
    decreases e,
{
    match e {
        Expression::Literal(n) => ExpressionView::Literal { value: n.value, id: n.id },
        Expression::Grouping(n) => ExpressionView::Grouping {
            expression: Box::new(expression_view(*n.expression)),
            id: n.id,
        },
        Expression::Unary(n) => ExpressionView::Unary {
            operator: n.operator,
            expression: Box::new(expression_view(*n.expression)),
            id: n.id,
        },
        Expression::Binary(n) => ExpressionView::Binary {
            left: Box::new(expression_view(*n.left)),
            operator: n.operator,
            right: Box::new(expression_view(*n.right)),
            id: n.id,
        },
        Expression::Logical(n) => ExpressionView::Logical {
            left: Box::new(expression_view(*n.left)),
            operator: n.operator,
            right: Box::new(expression_view(*n.right)),
            id: n.id,
        },
        Expression::Variable(n) => variable_view(n),
        Expression::Assignment(n) => ExpressionView::Assignment {
            name: n.name,
            value: Box::new(expression_view(*n.value)),
            id: n.id,
        },
        Expression::Call(n) => ExpressionView::Call {
            callee: Box::new(expression_view(*n.callee)),
            paren: n.paren,
            arguments: expressions_view(n.arguments@),
            id: n.id,
        },
        Expression::Get(n) => ExpressionView::Get {
            expression: Box::new(expression_view(*n.expression)),
            name: n.name,
            id: n.id,
        },
        Expression::SetField(n) => ExpressionView::SetField {
            expression: Box::new(expression_view(*n.expression)),
            name: n.name,
            value: Box::new(expression_view(*n.value)),
            id: n.id,
        },
        Expression::This(n) => ExpressionView::This { value: n.value, id: n.id },
        Expression::Super(n) => ExpressionView::Super {
            keyword: n.keyword,
            method: n.method,
            id: n.id,
        },
    }
}

/// The view of a read of a name.
pub open spec fn variable_view(n: VariableExpression) -> ExpressionView {
    ExpressionView::Variable { variable: n.variable, id: n.id }
}

/// The views of a sequence of expressions, in order.
pub open spec fn expressions_view(s: Seq<Expression>) -> Seq<ExpressionView>
    decreases s,
{
    if s.len() == 0 {
        Seq::empty()
    } else {
        expressions_view(s.drop_last()).push(expression_view(s.last()))
    }
}

/// The view of an optional expression.
pub open spec fn optional_expression_view(e: Option<Expression>) -> Option<ExpressionView> {
    match e {
        Some(e) => Some(expression_view(e)),
        None => None,
    }
}

/// The view of a statement.
pub open spec fn statement_view(s: Statement) -> StatementView
    decreases s,
{
    match s {
        Statement::Expression(n) => StatementView::Expression {
            expression: expression_view(n.expression),
        },
        Statement::Print(n) => StatementView::Print { expression: expression_view(n.expression) },
        Statement::Variable(n) => StatementView::Variable {
            name: n.name,
            initializer: optional_expression_view(n.initializer),
        },
        Statement::Block(n) => StatementView::Block { statements: statements_view(n.statements@) },
        Statement::If(n) => StatementView::If {
            condition: expression_view(n.condition),
            then_statement: Box::new(statement_view(*n.then_statement)),
            else_statement: match n.else_statement {
                Some(e) => Some(Box::new(statement_view(*e))),
                None => None,
            },
        },
        Statement::While(n) => StatementView::While {
            condition: expression_view(n.condition),
            body: Box::new(statement_view(*n.body)),
        },
        Statement::Function(n) => StatementView::Function { function: function_view(n) },
        Statement::Return(n) => StatementView::Return {
            keyword: n.keyword,
            value: optional_expression_view(n.value),
        },
        Statement::Class(n) => StatementView::Class {
            name: n.name,
            super_class: match n.super_class {
                Some(v) => Some(variable_view(v)),
                None => None,
            },
            methods: functions_view(n.methods@),
        },
    }
}

/// The view of a function declaration.
pub open spec fn function_view(f: FunctionStatement) -> FunctionView
    decreases f,
{
    FunctionView { name: f.name, parameters: f.parameters@, body: statements_view(f.body@) }
}

/// The views of a sequence of statements, in order.
pub open spec fn statements_view(s: Seq<Statement>) -> Seq<StatementView>
    decreases s,
{
    if s.len() == 0 {
        Seq::empty()
    } else {
        statements_view(s.drop_last()).push(statement_view(s.last()))
    }
}

/// The views of a sequence of function declarations, in order.
pub open spec fn functions_view(s: Seq<FunctionStatement>) -> Seq<FunctionView>
    decreases s,
{
    if s.len() == 0 {
        Seq::empty()
    } else {
        functions_view(s.drop_last()).push(function_view(s.last()))
    }
}

/// The identities of the nodes of an expression: those of its parts, from
/// left to right, and then its own.
pub open spec fn expression_ids(e: ExpressionView) -> Seq<u64>
    decreases e,
{
    match e {
        ExpressionView::Literal { id, .. } => seq![id],
        ExpressionView::Grouping { expression, id } => expression_ids(*expression).push(id),
        ExpressionView::Unary { expression, id, .. } => expression_ids(*expression).push(id),
        ExpressionView::Binary { left, right, id, .. } => (expression_ids(*left) + expression_ids(
            *right,
        )).push(id),
        ExpressionView::Logical { left, right, id, .. } => (expression_ids(*left) + expression_ids(
            *right,
        )).push(id),
        ExpressionView::Variable { id, .. } => seq![id],
        ExpressionView::Assignment { value, id, .. } => expression_ids(*value).push(id),
        ExpressionView::Call { callee, arguments, id, .. } => (expression_ids(*callee)
            + expressions_ids(arguments, arguments.len() as int)).push(id),
        ExpressionView::Get { expression, id, .. } => expression_ids(*expression).push(id),
        ExpressionView::SetField { expression, value, id, .. } => (expression_ids(*expression)
            + expression_ids(*value)).push(id),
        ExpressionView::This { id, .. } => seq![id],
        ExpressionView::Super { id, .. } => seq![id],
    }
}

/// The identities of the nodes of the first `count` expressions of a list.
pub open spec fn expressions_ids(list: Seq<ExpressionView>, count: int) -> Seq<u64>
    decreases list, count,
{
    if count <= 0 || count > list.len() {
        Seq::empty()
    } else {
        expressions_ids(list, count - 1) + expression_ids(list[count - 1])
    }
}

/// The identities of the nodes of an optional expression.
pub open spec fn optional_expression_ids(e: Option<ExpressionView>) -> Seq<u64> {
    match e {
        Some(e) => expression_ids(e),
        None => Seq::empty(),
    }
}

/// The identities of the expression nodes of a statement, in the order of
/// its parts.
pub open spec fn statement_ids(s: StatementView) -> Seq<u64>
    decreases s,
{
    match s {
        StatementView::Expression { expression } => expression_ids(expression),
        StatementView::Print { expression } => expression_ids(expression),
        StatementView::Variable { initializer, .. } => optional_expression_ids(initializer),
        StatementView::Block { statements } => statements_ids(statements, statements.len() as int),
        StatementView::If { condition, then_statement, else_statement } => expression_ids(
            condition,
        ) + statement_ids(*then_statement) + match else_statement {
            Some(other) => statement_ids(*other),
            None => Seq::empty(),
        },
        StatementView::While { condition, body } => expression_ids(condition) + statement_ids(
            *body,
        ),
        StatementView::Function { function } => function_ids(function),
        StatementView::Return { value, .. } => optional_expression_ids(value),
        StatementView::Class { super_class, methods, .. } => optional_expression_ids(super_class)
            + functions_ids(methods, methods.len() as int),
    }
}

/// The identities of the expression nodes of a function declaration.
pub open spec fn function_ids(f: FunctionView) -> Seq<u64>
    decreases f,
{
    statements_ids(f.body, f.body.len() as int)
}

/// The identities of the expression nodes of the first `count` statements
/// of a list.
pub open spec fn statements_ids(list: Seq<StatementView>, count: int) -> Seq<u64>
    decreases list, count,
{
    if count <= 0 || count > list.len() {
        Seq::empty()
    } else {
        statements_ids(list, count - 1) + statement_ids(list[count - 1])
    }
}

/// The identities of the expression nodes of the first `count` functions of
/// a list.
pub open spec fn functions_ids(list: Seq<FunctionView>, count: int) -> Seq<u64>
    decreases list, count,
{
    if count <= 0 || count > list.len() {
        Seq::empty()
    } else {
        functions_ids(list, count - 1) + function_ids(list[count - 1])
    }
}

/// Whether identities are unique and lie in a range: none occurs twice,
/// and each is at least `low` and less than `high`.
pub open spec fn fresh(ids: Seq<u64>, low: int, high: int) -> bool {
    &&& forall|i: int, j: int| 0 <= i < j < ids.len() ==> ids[i] != ids[j]
    &&& forall|i: int| 0 <= i < ids.len() ==> low <= #[trigger] ids[i] < high
}

/// Unique identities in a range are unique identities in a wider range.
pub proof fn fresh_widen(ids: Seq<u64>, low: int, high: int, lower: int, higher: int)
    requires
        fresh(ids, low, high),
        lower <= low,
        high <= higher,
    ensures
        fresh(ids, lower, higher),
{
}

/// Unique identities of two ranges that do not meet are unique together.
pub proof fn fresh_join(
    a: Seq<u64>,
    low_a: int,
    high_a: int,
    b: Seq<u64>,
    low_b: int,
    high_b: int,
)
    requires
        fresh(a, low_a, high_a),
        fresh(b, low_b, high_b),
        high_a <= low_b || high_b <= low_a,
    ensures
        fresh(
            a + b,
            if low_a <= low_b {
                low_a
            } else {
                low_b
            },
            if high_a <= high_b {
                high_b
            } else {
                high_a
            },
        ),
{
    let ids = a + b;
    assert forall|i: int, j: int| 0 <= i < j < ids.len() implies ids[i] != ids[j] by {
        if j < a.len() {
            assert(ids[i] == a[i] && ids[j] == a[j]);
        } else if i >= a.len() {
            assert(ids[i] == b[i - a.len()] && ids[j] == b[j - a.len()]);
        } else {
            assert(ids[i] == a[i] && ids[j] == b[j - a.len()]);
        }
    }
    assert forall|i: int| 0 <= i < ids.len() implies (if low_a <= low_b {
        low_a
    } else {
        low_b
    }) <= #[trigger] ids[i] < (if high_a <= high_b {
        high_b
    } else {
        high_a
    }) by {
        if i < a.len() {
            assert(ids[i] == a[i]);
        } else {
            assert(ids[i] == b[i - a.len()]);
        }
    }
}

/// Unique identities below an identity are unique with it behind them.
pub proof fn fresh_push(ids: Seq<u64>, low: int, id: u64)
    requires
        fresh(ids, low, id as int),
        low <= id,
    ensures
        fresh(ids.push(id), low, id + 1),
{
    assert(ids.push(id) =~= ids + seq![id]);
    assert(fresh(seq![id], id as int, id + 1));
    fresh_join(ids, low, id as int, seq![id], id as int, id + 1);
}

/// The first of unique identities are unique.
pub proof fn fresh_front(a: Seq<u64>, b: Seq<u64>, low: int, high: int)
    requires
        fresh(a + b, low, high),
    ensures
        fresh(a, low, high),
{
    let ids = a + b;
    assert forall|i: int, j: int| 0 <= i < j < a.len() implies a[i] != a[j] by {
        assert(ids[i] == a[i] && ids[j] == a[j]);
    }
    assert forall|i: int| 0 <= i < a.len() implies low <= #[trigger] a[i] < high by {
        assert(ids[i] == a[i]);
    }
}

impl Expression {
    /// The identity of the node.
    pub fn id(&self) -> (r: u64)
        ensures
            r == expression_id(*self),
    {
        match self {
            Expression::Literal(n) => n.id,
            Expression::Grouping(n) => n.id,
            Expression::Unary(n) => n.id,
            Expression::Binary(n) => n.id,
            Expression::Logical(n) => n.id,
            Expression::Variable(n) => n.id,
            Expression::Assignment(n) => n.id,
            Expression::Call(n) => n.id,
            Expression::Get(n) => n.id,
            Expression::SetField(n) => n.id,
            Expression::This(n) => n.id,
            Expression::Super(n) => n.id,
        }
    }
}

/// The identity of an expression node.
pub open spec fn expression_id(e: Expression) -> u64 {
    match e {
        Expression::Literal(n) => n.id,
        Expression::Grouping(n) => n.id,
        Expression::Unary(n) => n.id,
        Expression::Binary(n) => n.id,
        Expression::Logical(n) => n.id,
        Expression::Variable(n) => n.id,
        Expression::Assignment(n) => n.id,
        Expression::Call(n) => n.id,
        Expression::Get(n) => n.id,
        Expression::SetField(n) => n.id,
        Expression::This(n) => n.id,
        Expression::Super(n) => n.id,
    }
}

/// An identity drawn at random: `rand::random` hands back a value of the
/// thread's generator. Nothing is known of the value. The call panics only
/// where the operating system's source of randomness cannot be read: when
/// the thread's generator is first set up, or when it is seeded anew after
/// it has given out its share of values.
#[verifier::external_body]
fn random_id() -> (id: u64) {
    rand::random::<u64>()
}

impl Literal {
    /// A constant with an identity drawn at random, for a node that is made
    /// by hand. The parser numbers its nodes itself.
    pub fn new(value: LiteralValue) -> (r: Literal)
        ensures
            r.value == value,
    {
        Literal { value, id: random_id() }
    }
}

impl Default for Literal {
    fn default() -> (r: Literal)
        ensures
            r.value == LiteralValue::Nil,
    {
        Literal::new(LiteralValue::Nil)
    }
}

impl ThisExpression {
    /// A reference to the current instance with an identity drawn at
    /// random, for a node that is made by hand.
    pub fn new(value: Token) -> (r: ThisExpression)
        ensures
            r.value == value,
    {
        ThisExpression { value, id: random_id() }
    }
}

} // verus!
