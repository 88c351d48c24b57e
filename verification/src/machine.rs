//! The state of the evaluator, and what it exchanges with its host.
//!
//! The evaluator is a step machine. Its control says what is to be done
//! next; its frames say what is to be done with the result. A frame stands
//! for a node of the tree some of whose parts have been evaluated, and
//! holds the values of those parts.

use vstd::prelude::*;
use crate::token::TokenType;
use crate::ast::{
    AssignmentExpression, BinaryExpression, CallExpression, Expression, GetExpression,
    IfStatement, LogicalExpression, SetExpression, Statement, UnaryExpression, VariableStatement,
    WhileStatement,
};
use crate::value::{LiteralValue, ValueView, optional_value_view, values_view};
use crate::error::RuntimeError;
use crate::heap::{FunctionModel, HeapView, LoxFunction};

verus! {

/// Work that the evaluator leaves to its host: arithmetic on numbers, and
/// the time. The host answers a request with a value. A number goes to the
/// host and comes from it as a decimal text. Nothing is asked of the text
/// that the host answers with but that it is one of the number: the
/// evaluator takes no two different texts for different numbers.
#[derive(Debug)]
pub enum Request {
    /// The number that a numeral of the source stands for.
    Numeral(String),
    /// The number negated.
    Negate(String),
    /// The sum, difference, product or quotient of two numbers, by the
    /// kind of the operator: `PLUS`, `MINUS`, `STAR` or `SLASH`.
    Arithmetic(TokenType, String, String),
    /// Whether one number stands in a relation to another, by the kind of
    /// the operator: `GREATER`, `GREATER_EQUAL`, `LESS` or `LESS_EQUAL`
    /// for the order, `EQUAL_EQUAL` or `BANG_EQUAL` for whether the two
    /// are the same number or not.
    Compare(TokenType, String, String),
    /// The seconds since the Unix epoch.
    Clock,
}

/// The mathematical view of a request.
pub enum RequestView {
    Numeral(Seq<char>),
    Negate(Seq<char>),
    Arithmetic(TokenType, Seq<char>, Seq<char>),
    Compare(TokenType, Seq<char>, Seq<char>),
    Clock,
}

impl View for Request {
    type V = RequestView;

    open spec fn view(&self) -> RequestView {
        match *self {
            Request::Numeral(a) => RequestView::Numeral(a@),
            Request::Negate(a) => RequestView::Negate(a@),
            Request::Arithmetic(t, a, b) => RequestView::Arithmetic(t, a@, b@),
            Request::Compare(t, a, b) => RequestView::Compare(t, a@, b@),
            Request::Clock => RequestView::Clock,
        }
    }
}

impl Clone for Request {
    fn clone(&self) -> (r: Self)
        ensures
            r == *self,
    {
        match self {
            Request::Numeral(a) => Request::Numeral(a.clone()),
            Request::Negate(a) => Request::Negate(a.clone()),
            Request::Arithmetic(t, a, b) => Request::Arithmetic(*t, a.clone(), b.clone()),
            Request::Compare(t, a, b) => Request::Compare(*t, a.clone(), b.clone()),
            Request::Clock => Request::Clock,
        }
    }
}

/// What a step asks of the host.
#[derive(Debug)]
pub enum Action {
    /// Nothing: take the next step.
    Continue,
    /// Write a line of output.
    Print(String),
    /// Answer a request with the next step.
    Ask(Request),
    /// Nothing more: the program has run to its end.
    Done,
    /// Nothing more: the program has failed.
    Fail(RuntimeError),
}

/// The mathematical view of an action.
pub enum ActionView {
    Continue,
    Print(Seq<char>),
    Ask(RequestView),
    Done,
    Fail(RuntimeError),
}

impl View for Action {
    type V = ActionView;

    open spec fn view(&self) -> ActionView {
        match *self {
            Action::Continue => ActionView::Continue,
            Action::Print(text) => ActionView::Print(text@),
            Action::Ask(request) => ActionView::Ask(request@),
            Action::Done => ActionView::Done,
            Action::Fail(error) => ActionView::Fail(error),
        }
    }
}

/// What the machine does next.
pub enum Control<'a> {
    /// Evaluate an expression.
    Evaluate(&'a Expression),
    /// Execute a statement.
    Execute(&'a Statement),
    /// Hand the value of an expression to the frame that waits for it.
    Value(LiteralValue),
    /// Hand the completion of a statement to the frame that waits for it:
    /// nothing, or the value that a `return` carries.
    Completed(Option<LiteralValue>),
    /// Wait for the host's answer to a request.
    Awaiting(Request),
    /// Nothing: the program has run to its end.
    Finished,
    /// Nothing: the program has failed.
    Failed(RuntimeError),
}

/// The mathematical view of a control.
pub enum ControlView {
    Evaluate(Expression),
    Execute(Statement),
    Value(ValueView),
    Completed(Option<ValueView>),
    Awaiting(RequestView),
    Finished,
    Failed(RuntimeError),
}

impl<'a> View for Control<'a> {
    type V = ControlView;

    open spec fn view(&self) -> ControlView {
        match *self {
            Control::Evaluate(e) => ControlView::Evaluate(*e),
            Control::Execute(s) => ControlView::Execute(*s),
            Control::Value(v) => ControlView::Value(v@),
            Control::Completed(c) => ControlView::Completed(optional_value_view(c)),
            Control::Awaiting(r) => ControlView::Awaiting(r@),
            Control::Finished => ControlView::Finished,
            Control::Failed(e) => ControlView::Failed(e),
        }
    }
}

/// What is to be done with a result.
pub enum Frame<'a> {
    /// Apply the operator to the operand.
    Unary(&'a UnaryExpression),
    /// Keep the left operand and evaluate the right one.
    BinaryLeft(&'a BinaryExpression),
    /// Apply the operator to the left operand, held here, and the right.
    BinaryRight(&'a BinaryExpression, LiteralValue),
    /// Decide by the left operand whether the right one is evaluated.
    Logical(&'a LogicalExpression),
    /// Assign the value to the name.
    Assign(&'a AssignmentExpression),
    /// Keep the callee and evaluate the arguments.
    Callee(&'a CallExpression),
    /// Keep the argument with the callee and the earlier arguments, held
    /// here, and evaluate the next one or make the call.
    Argument(&'a CallExpression, LiteralValue, Vec<LiteralValue>),
    /// Read the property of the object.
    Get(&'a GetExpression),
    /// Keep the object and evaluate the value to write.
    SetObject(&'a SetExpression),
    /// Write the value to the property of the instance, held here.
    SetValue(&'a SetExpression, usize),
    /// Drop the value of an expression statement.
    Expression,
    /// Print the value.
    Print,
    /// Bind the value to the name of the declaration.
    Variable(&'a VariableStatement),
    /// Carry the value out of the function.
    Return,
    /// Choose the branch by the condition.
    If(&'a IfStatement),
    /// Run the body or leave the loop, by the condition.
    WhileCondition(&'a WhileStatement),
    /// Evaluate the condition again, or leave the loop with what the body
    /// carries.
    WhileBody(&'a WhileStatement),
    /// Execute the statement at the index, and so on to the end.
    Sequence(&'a Vec<Statement>, usize),
    /// Go back to the environment that was current before a block.
    Scope(usize),
    /// Go back to the environment that was current before a call, and hand
    /// on what the function returns.
    Call(usize, LoxFunction<'a>),
    /// Hand on the instance that an initializer has set up.
    Construct(usize),
}

/// The mathematical view of a frame.
pub enum FrameView {
    Unary(UnaryExpression),
    BinaryLeft(BinaryExpression),
    BinaryRight(BinaryExpression, ValueView),
    Logical(LogicalExpression),
    Assign(AssignmentExpression),
    Callee(CallExpression),
    Argument(CallExpression, ValueView, Seq<ValueView>),
    Get(GetExpression),
    SetObject(SetExpression),
    SetValue(SetExpression, usize),
    Expression,
    Print,
    Variable(VariableStatement),
    Return,
    If(IfStatement),
    WhileCondition(WhileStatement),
    WhileBody(WhileStatement),
    Sequence(Seq<Statement>, usize),
    Scope(usize),
    Call(usize, FunctionModel),
    Construct(usize),
}

impl<'a> View for Frame<'a> {
    type V = FrameView;

    open spec fn view(&self) -> FrameView {
        match *self {
            Frame::Unary(n) => FrameView::Unary(*n),
            Frame::BinaryLeft(n) => FrameView::BinaryLeft(*n),
            Frame::BinaryRight(n, v) => FrameView::BinaryRight(*n, v@),
            Frame::Logical(n) => FrameView::Logical(*n),
            Frame::Assign(n) => FrameView::Assign(*n),
            Frame::Callee(n) => FrameView::Callee(*n),
            Frame::Argument(n, callee, arguments) => FrameView::Argument(
                *n,
                callee@,
                values_view(arguments@),
            ),
            Frame::Get(n) => FrameView::Get(*n),
            Frame::SetObject(n) => FrameView::SetObject(*n),
            Frame::SetValue(n, i) => FrameView::SetValue(*n, i),
            Frame::Expression => FrameView::Expression,
            Frame::Print => FrameView::Print,
            Frame::Variable(n) => FrameView::Variable(*n),
            Frame::Return => FrameView::Return,
            Frame::If(n) => FrameView::If(*n),
            Frame::WhileCondition(n) => FrameView::WhileCondition(*n),
            Frame::WhileBody(n) => FrameView::WhileBody(*n),
            Frame::Sequence(s, next) => FrameView::Sequence(s@, next),
            Frame::Scope(saved) => FrameView::Scope(saved),
            Frame::Call(saved, f) => FrameView::Call(saved, f@),
            Frame::Construct(i) => FrameView::Construct(i),
        }
    }
}

/// The mathematical view of the machine.
pub struct MachineView {
    pub control: ControlView,
    pub frames: Seq<FrameView>,
    /// The index of the current environment.
    pub environment: usize,
    pub heap: HeapView,
    /// The resolver's side-table.
    pub locals: Map<u64, usize>,
}

} // verus!
