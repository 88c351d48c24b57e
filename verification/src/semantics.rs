//! The semantics of the language, as a step function on the view of the
//! machine.
//!
//! [`step`] is the whole of it. The functions before it are its rules, one
//! for each kind of node and of frame. The interpreter is proved to take
//! exactly these steps.

use vstd::prelude::*;
use crate::token::{Token, TokenType};
use crate::ast::{
    AssignmentExpression, BinaryExpression, BlockStatement, CallExpression, ClassStatement,
    Expression, FunctionStatement, GetExpression, IfStatement, LogicalExpression, ReturnStatement,
    SetExpression, Statement, SuperExpression, UnaryExpression, VariableStatement, WhileStatement,
};
use crate::value::{ValueView, equality, truthy};
use crate::error::{RuntimeError, RuntimeMessage};
use crate::environment;
use crate::environment::{EnvironmentView, GLOBALS};
use crate::heap;
use crate::heap::{ClassView, FunctionModel, HeapView, InstanceView};
use crate::machine::{ActionView, ControlView, FrameView, MachineView, RequestView};

verus! {

/// What a step yields: the machine after it, and what it asks of the host.
pub type Stepped = (MachineView, ActionView);

/// Go on with another control.
pub open spec fn goto(m: MachineView, control: ControlView) -> Stepped {
    (MachineView { control, ..m }, ActionView::Continue)
}

/// Hand a value to the frame on top.
pub open spec fn produce(m: MachineView, value: ValueView) -> Stepped {
    goto(m, ControlView::Value(value))
}

/// Hand the completion of a statement to the frame on top.
pub open spec fn complete(m: MachineView, carried: Option<ValueView>) -> Stepped {
    goto(m, ControlView::Completed(carried))
}

/// Put a frame on top and go on with another control.
pub open spec fn push(m: MachineView, frame: FrameView, control: ControlView) -> Stepped {
    goto(MachineView { frames: m.frames.push(frame), ..m }, control)
}

/// The machine without its top frame.
pub open spec fn pop(m: MachineView) -> MachineView {
    MachineView { frames: m.frames.drop_last(), ..m }
}

/// The machine with other environments.
pub open spec fn with_environments(
    m: MachineView,
    environments: Seq<EnvironmentView>,
) -> MachineView {
    MachineView { heap: HeapView { environments, ..m.heap }, ..m }
}

/// The environment that a frame goes back to when it is left: the one that
/// a block or a call has saved, and for any other frame the one that is
/// current.
pub open spec fn left(frame: FrameView, environment: usize) -> usize {
    match frame {
        FrameView::Scope(saved) => saved,
        FrameView::Call(saved, _) => saved,
        _ => environment,
    }
}

/// The environment that is current when every open frame has been left,
/// from the top down: the one that was current before the outermost open
/// block or call was entered, and the current one where none is open.
pub open spec fn unwound(frames: Seq<FrameView>, environment: usize) -> usize
    decreases frames.len(),
{
    if frames.len() == 0 {
        environment
    } else {
        unwound(frames.drop_last(), left(frames.last(), environment))
    }
}

/// Fail with a runtime error. The run is over, and every open block and
/// call is left with it: the machine goes back to the environment that was
/// current before the outermost of them was entered.
pub open spec fn fail(m: MachineView, message: RuntimeMessage, token: Token) -> Stepped {
    let error = RuntimeError { message, token };
    (
        MachineView {
            control: ControlView::Failed(error),
            environment: unwound(m.frames, m.environment),
            ..m
        },
        ActionView::Fail(error),
    )
}

/// Ask the host, and wait for its answer.
pub open spec fn ask(m: MachineView, request: RequestView) -> Stepped {
    (MachineView { control: ControlView::Awaiting(request), ..m }, ActionView::Ask(request))
}

/// Stop: the program has run to its end.
pub open spec fn stop(m: MachineView) -> Stepped {
    (MachineView { control: ControlView::Finished, ..m }, ActionView::Done)
}

/// The value of a name for a reference. A reference that the resolver gave
/// a depth reads the environment that many parent links above the current
/// one; any other is a global, and reads the globals.
pub open spec fn look_up_variable(m: MachineView, id: u64, name: Token) -> Option<ValueView> {
    if m.locals.contains_key(id) {
        environment::get_at(
            m.heap.environments,
            m.environment as int,
            m.locals[id] as nat,
            name.token_value@,
        )
    } else {
        environment::lookup(m.heap.environments, GLOBALS as int, name.token_value@)
    }
}

/// A read of a name, or of `this`.
pub open spec fn visit_variable_expression(m: MachineView, id: u64, name: Token) -> Stepped {
    match look_up_variable(m, id, name) {
        Some(value) => produce(m, value),
        None => fail(m, RuntimeMessage::UndefinedVariable, name),
    }
}

/// The heap with a method bound to an instance as one more function, and
/// the value that names it.
pub open spec fn bound_method(
    h: HeapView,
    method: FunctionModel,
    instance: usize,
) -> (HeapView, ValueView) {
    let (environments, bound) = heap::bind(h.environments, method, instance);
    (
        HeapView { environments, functions: h.functions.push(bound), ..h },
        ValueView::Function(h.functions.len() as usize),
    )
}

/// `super.method`: the method of the superclass, bound to `this`. The
/// superclass is what `super` is bound to at the depth of the reference,
/// and `this` is bound one environment nearer.
pub open spec fn visit_super_expression(m: MachineView, n: SuperExpression) -> Stepped {
    if !m.locals.contains_key(n.id) || m.locals[n.id] == 0 {
        fail(m, RuntimeMessage::UndefinedVariable, n.keyword)
    } else {
        let depth = m.locals[n.id] as nat;
        let environments = m.heap.environments;
        match (
            environment::get_at(environments, m.environment as int, depth, "super"@),
            environment::get_at(environments, m.environment as int, (depth - 1) as nat, "this"@),
        ) {
            (Some(ValueView::LoxClass(class)), Some(ValueView::Instance(instance))) => {
                match heap::find_method(m.heap.classes, class as int, n.method.token_value@) {
                    Some(method) => {
                        let (h, value) = bound_method(m.heap, method, instance);
                        produce(MachineView { heap: h, ..m }, value)
                    },
                    None => fail(m, RuntimeMessage::UndefinedProperty, n.method),
                }
            },
            _ => fail(m, RuntimeMessage::UndefinedVariable, n.keyword),
        }
    }
}

/// A constant is its value; for a number the host is asked what number the
/// numeral stands for.
pub open spec fn visit_literal(m: MachineView, value: ValueView) -> Stepped {
    match value {
        ValueView::Number(numeral) => ask(m, RequestView::Numeral(numeral)),
        _ => produce(m, value),
    }
}

/// Begin to evaluate an expression: a constant or a name is a value at
/// once; of any other expression the first part is evaluated, with a frame
/// that waits for its value.
pub open spec fn evaluate(m: MachineView, e: Expression) -> Stepped {
    match e {
        Expression::Literal(n) => visit_literal(m, n.value@),
        Expression::Grouping(n) => goto(m, ControlView::Evaluate(*n.expression)),
        Expression::Unary(n) => push(m, FrameView::Unary(n), ControlView::Evaluate(*n.expression)),
        Expression::Binary(n) => push(m, FrameView::BinaryLeft(n), ControlView::Evaluate(*n.left)),
        Expression::Logical(n) => push(m, FrameView::Logical(n), ControlView::Evaluate(*n.left)),
        Expression::Variable(n) => visit_variable_expression(m, n.id, n.variable),
        Expression::Assignment(n) => push(
            m,
            FrameView::Assign(n),
            ControlView::Evaluate(*n.value),
        ),
        Expression::Call(n) => push(m, FrameView::Callee(n), ControlView::Evaluate(*n.callee)),
        Expression::Get(n) => push(m, FrameView::Get(n), ControlView::Evaluate(*n.expression)),
        Expression::SetField(n) => push(
            m,
            FrameView::SetObject(n),
            ControlView::Evaluate(*n.expression),
        ),
        Expression::This(n) => visit_variable_expression(m, n.id, n.value),
        Expression::Super(n) => visit_super_expression(m, n),
    }
}

/// `-` asks the host for the negation of a number and fails on any other
/// operand; `!` negates the truthiness of any value.
pub open spec fn visit_unary_expression(
    m: MachineView,
    n: UnaryExpression,
    operand: ValueView,
) -> Stepped {
    match n.operator.token_type {
        TokenType::MINUS => match operand {
            ValueView::Number(a) => ask(m, RequestView::Negate(a)),
            _ => fail(m, RuntimeMessage::OperandMustBeANumber, n.operator),
        },
        TokenType::BANG => produce(m, ValueView::Boolean(!truthy(operand))),
        _ => fail(m, RuntimeMessage::UnknownOperator, n.operator),
    }
}

/// A binary operator on two values. `+` on two numbers, and `-`, `*`, `/`
/// on two numbers, ask the host for the result; `+` on two strings joins
/// them; the order relations on two numbers ask the host. `==` and `!=`
/// compare any two values, and ask the host where the values are two
/// numbers that are written differently. Operands of any other kinds are
/// an error.
pub open spec fn visit_binary_expression(
    m: MachineView,
    n: BinaryExpression,
    left: ValueView,
    right: ValueView,
) -> Stepped {
    let operator = n.operator.token_type;
    match operator {
        TokenType::MINUS | TokenType::STAR | TokenType::SLASH => match (left, right) {
            (ValueView::Number(a), ValueView::Number(b)) => ask(
                m,
                RequestView::Arithmetic(operator, a, b),
            ),
            _ => fail(m, RuntimeMessage::OperandsMustBeNumbers, n.operator),
        },
        TokenType::PLUS => match (left, right) {
            (ValueView::Number(a), ValueView::Number(b)) => ask(
                m,
                RequestView::Arithmetic(operator, a, b),
            ),
            (ValueView::String(a), ValueView::String(b)) => produce(m, ValueView::String(a + b)),
            _ => fail(m, RuntimeMessage::OperandsMustBeTwoNumbersOrTwoStrings, n.operator),
        },
        TokenType::GREATER
        | TokenType::GREATER_EQUAL
        | TokenType::LESS
        | TokenType::LESS_EQUAL => match (left, right) {
            (ValueView::Number(a), ValueView::Number(b)) => ask(
                m,
                RequestView::Compare(operator, a, b),
            ),
            _ => fail(m, RuntimeMessage::OperandsMustBeNumbers, n.operator),
        },
        TokenType::EQUAL_EQUAL | TokenType::BANG_EQUAL => match equality(left, right) {
            Some(equal) => produce(
                m,
                ValueView::Boolean(equal == (operator == TokenType::EQUAL_EQUAL)),
            ),
            None => ask(m, RequestView::Compare(operator, left->Number_0, right->Number_0)),
        },
        _ => fail(m, RuntimeMessage::UnknownOperator, n.operator),
    }
}

/// `or` yields its left operand if that is truthy, `and` if it is falsy;
/// otherwise the right operand is evaluated and is the result.
pub open spec fn visit_logical_expression(
    m: MachineView,
    n: LogicalExpression,
    left: ValueView,
) -> Stepped {
    if (n.operator.token_type == TokenType::OR) == truthy(left) {
        produce(m, left)
    } else {
        goto(m, ControlView::Evaluate(*n.right))
    }
}

/// An assignment writes to the environment at the reference's depth, or to
/// the globals if the resolver gave it none, and yields the value. A global
/// must have been declared before it is assigned to.
pub open spec fn visit_assignment_expression(
    m: MachineView,
    n: AssignmentExpression,
    value: ValueView,
) -> Stepped {
    let stored = if m.locals.contains_key(n.id) {
        environment::assign_at(
            m.heap.environments,
            m.environment as int,
            m.locals[n.id] as nat,
            n.name.token_value@,
            value,
        )
    } else {
        environment::assign(m.heap.environments, GLOBALS as int, n.name.token_value@, value)
    };
    match stored {
        Some(environments) => produce(with_environments(m, environments), value),
        None => fail(m, RuntimeMessage::UndefinedVariable, n.name),
    }
}

/// The environments after the parameters from an index on were bound to
/// the arguments in the environment at `at`.
pub open spec fn bind_parameters(
    environments: Seq<EnvironmentView>,
    at: int,
    parameters: Seq<Token>,
    arguments: Seq<ValueView>,
    from: int,
) -> Seq<EnvironmentView>
    decreases parameters.len() - from,
{
    if from < 0 || from >= parameters.len() || from >= arguments.len() {
        environments
    } else {
        bind_parameters(
            environment::define(environments, at, parameters[from].token_value@, arguments[from]),
            at,
            parameters,
            arguments,
            from + 1,
        )
    }
}

/// Enter a function: a fresh environment below the closure's holds the
/// parameters, and the body runs in it. The frame below the body takes
/// the machine back to the caller's environment.
pub open spec fn activate(
    m: MachineView,
    function: FunctionModel,
    arguments: Seq<ValueView>,
) -> Stepped {
    let at = m.heap.environments.len();
    let environments = bind_parameters(
        environment::extend(m.heap.environments, Some(function.closure)),
        at as int,
        function.declaration.parameters@,
        arguments,
        0,
    );
    complete(
        MachineView {
            frames: m.frames.push(FrameView::Call(m.environment, function)).push(
                FrameView::Sequence(function.declaration.body@, 0),
            ),
            environment: at as usize,
            heap: HeapView { environments, ..m.heap },
            ..m
        },
        None,
    )
}

/// A call of a function: the number of arguments must be the number of
/// parameters.
pub open spec fn call_function(
    m: MachineView,
    paren: Token,
    function: FunctionModel,
    arguments: Seq<ValueView>,
) -> Stepped {
    let expected = function.declaration.parameters@.len();
    if arguments.len() != expected {
        fail(
            m,
            RuntimeMessage::WrongArity { expected: expected as usize, got: arguments.len() as usize },
            paren,
        )
    } else {
        activate(m, function, arguments)
    }
}

/// A call of a class makes an instance. If the class has an `init`, the
/// call takes its parameters, and runs it bound to the instance before the
/// instance is handed on; if it has none, the call takes no arguments.
pub open spec fn call_class(
    m: MachineView,
    paren: Token,
    class: usize,
    arguments: Seq<ValueView>,
) -> Stepped {
    let initializer = heap::find_method(m.heap.classes, class as int, "init"@);
    let expected = match initializer {
        Some(f) => f.declaration.parameters@.len(),
        None => 0,
    };
    if arguments.len() != expected {
        fail(
            m,
            RuntimeMessage::WrongArity { expected: expected as usize, got: arguments.len() as usize },
            paren,
        )
    } else {
        let instance = m.heap.instances.len() as usize;
        let made = MachineView {
            heap: HeapView {
                instances: m.heap.instances.push(
                    InstanceView { klass: class, fields: Map::empty() },
                ),
                ..m.heap
            },
            ..m
        };
        match initializer {
            Some(f) => {
                let (environments, bound) = heap::bind(made.heap.environments, f, instance);
                activate(
                    MachineView {
                        frames: made.frames.push(FrameView::Construct(instance)),
                        heap: HeapView { environments, ..made.heap },
                        ..made
                    },
                    bound,
                    arguments,
                )
            },
            None => produce(made, ValueView::Instance(instance)),
        }
    }
}

/// A call of `clock`: it takes no arguments, and asks the host for the
/// time.
pub open spec fn call_clock(m: MachineView, paren: Token, arguments: Seq<ValueView>) -> Stepped {
    if arguments.len() == 0 {
        ask(m, RequestView::Clock)
    } else {
        fail(m, RuntimeMessage::WrongArity { expected: 0, got: arguments.len() as usize }, paren)
    }
}

/// A call of a value. A function or a class is called; `clock` asks the
/// host for the time; nothing else can be called.
pub open spec fn call_value(
    m: MachineView,
    paren: Token,
    callee: ValueView,
    arguments: Seq<ValueView>,
) -> Stepped {
    match callee {
        ValueView::Function(f) => if f < m.heap.functions.len() {
            call_function(m, paren, m.heap.functions[f as int], arguments)
        } else {
            fail(m, RuntimeMessage::CanOnlyCallFunctionsAndClasses, paren)
        },
        ValueView::LoxClass(c) => if c < m.heap.classes.len() {
            call_class(m, paren, c, arguments)
        } else {
            fail(m, RuntimeMessage::CanOnlyCallFunctionsAndClasses, paren)
        },
        ValueView::Clock => call_clock(m, paren, arguments),
        _ => fail(m, RuntimeMessage::CanOnlyCallFunctionsAndClasses, paren),
    }
}

/// The number of arguments that a call of a value takes: the number of
/// parameters of a function, that of the `init` of a class or none if it
/// has no `init`, and none for `clock` and for what cannot be called.
pub open spec fn arity(m: MachineView, callee: ValueView) -> nat {
    match callee {
        ValueView::Function(f) => if f < m.heap.functions.len() {
            m.heap.functions[f as int].declaration.parameters@.len()
        } else {
            0
        },
        ValueView::LoxClass(c) => match heap::find_method(m.heap.classes, c as int, "init"@) {
            Some(f) => f.declaration.parameters@.len(),
            None => 0,
        },
        _ => 0,
    }
}

/// A call, once the callee and the arguments are values.
pub open spec fn visit_call_expression(
    m: MachineView,
    n: CallExpression,
    callee: ValueView,
    arguments: Seq<ValueView>,
) -> Stepped {
    call_value(m, n.paren, callee, arguments)
}

/// The next argument of a call is evaluated, or the call is made if there
/// is none left.
pub open spec fn next_argument(
    m: MachineView,
    n: CallExpression,
    callee: ValueView,
    arguments: Seq<ValueView>,
) -> Stepped {
    if arguments.len() < n.arguments@.len() {
        push(
            m,
            FrameView::Argument(n, callee, arguments),
            ControlView::Evaluate(n.arguments@[arguments.len() as int]),
        )
    } else {
        visit_call_expression(m, n, callee, arguments)
    }
}

/// A read of a property: only an instance has properties; a field hides a
/// method of the same name; a method comes bound to the instance.
pub open spec fn visit_get_expression(
    m: MachineView,
    n: GetExpression,
    object: ValueView,
) -> Stepped {
    match object {
        ValueView::Instance(i) => if i < m.heap.instances.len() {
            match heap::property(m.heap, i as int, n.name.token_value@) {
                Some((h, value)) => produce(MachineView { heap: h, ..m }, value),
                None => fail(m, RuntimeMessage::UndefinedProperty, n.name),
            }
        } else {
            fail(m, RuntimeMessage::OnlyInstancesHaveProperties, n.name)
        },
        _ => fail(m, RuntimeMessage::OnlyInstancesHaveProperties, n.name),
    }
}

/// The object of a write to a property must be an instance; the value to
/// write is evaluated next.
pub open spec fn set_object(m: MachineView, n: SetExpression, object: ValueView) -> Stepped {
    match object {
        ValueView::Instance(i) => if i < m.heap.instances.len() {
            push(m, FrameView::SetValue(n, i), ControlView::Evaluate(*n.value))
        } else {
            fail(m, RuntimeMessage::OnlyInstancesHaveProperties, n.name)
        },
        _ => fail(m, RuntimeMessage::OnlyInstancesHaveProperties, n.name),
    }
}

/// A write to a property makes or overwrites the field, and yields the
/// value.
pub open spec fn visit_set_expression(
    m: MachineView,
    n: SetExpression,
    instance: usize,
    value: ValueView,
) -> Stepped {
    if instance < m.heap.instances.len() {
        produce(
            MachineView {
                heap: heap::write_field(m.heap, instance as int, n.name.token_value@, value),
                ..m
            },
            value,
        )
    } else {
        fail(m, RuntimeMessage::OnlyInstancesHaveProperties, n.name)
    }
}

/// `print` writes the value as a line of output.
pub open spec fn visit_print_statement(m: MachineView, value: ValueView) -> Stepped {
    (
        MachineView { control: ControlView::Completed(None), ..m },
        ActionView::Print(heap::printed(m.heap, value)),
    )
}

/// A variable declaration binds the name in the current environment.
pub open spec fn visit_variable_statement(
    m: MachineView,
    n: VariableStatement,
    value: ValueView,
) -> Stepped {
    complete(
        with_environments(
            m,
            environment::define(
                m.heap.environments,
                m.environment as int,
                n.name.token_value@,
                value,
            ),
        ),
        None,
    )
}

/// `if` runs the branch that the condition selects, if there is one.
pub open spec fn visit_if_statement(
    m: MachineView,
    n: IfStatement,
    condition: ValueView,
) -> Stepped {
    if truthy(condition) {
        goto(m, ControlView::Execute(*n.then_statement))
    } else {
        match n.else_statement {
            Some(other) => goto(m, ControlView::Execute(*other)),
            None => complete(m, None),
        }
    }
}

/// `while` runs its body as long as the condition is truthy.
pub open spec fn visit_while_statement(
    m: MachineView,
    n: WhileStatement,
    condition: ValueView,
) -> Stepped {
    if truthy(condition) {
        push(m, FrameView::WhileBody(n), ControlView::Execute(*n.body))
    } else {
        complete(m, None)
    }
}

/// A value reaches the frame on top, which is taken off and does its work
/// with it.
pub open spec fn resume(m: MachineView, value: ValueView) -> Stepped {
    if m.frames.len() == 0 {
        stop(m)
    } else {
        let rest = pop(m);
        match m.frames.last() {
            FrameView::Unary(n) => visit_unary_expression(rest, n, value),
            FrameView::BinaryLeft(n) => push(
                rest,
                FrameView::BinaryRight(n, value),
                ControlView::Evaluate(*n.right),
            ),
            FrameView::BinaryRight(n, left) => visit_binary_expression(rest, n, left, value),
            FrameView::Logical(n) => visit_logical_expression(rest, n, value),
            FrameView::Assign(n) => visit_assignment_expression(rest, n, value),
            FrameView::Callee(n) => next_argument(rest, n, value, Seq::empty()),
            FrameView::Argument(n, callee, arguments) => next_argument(
                rest,
                n,
                callee,
                arguments.push(value),
            ),
            FrameView::Get(n) => visit_get_expression(rest, n, value),
            FrameView::SetObject(n) => set_object(rest, n, value),
            FrameView::SetValue(n, instance) => visit_set_expression(rest, n, instance, value),
            FrameView::Expression => complete(rest, None),
            FrameView::Print => visit_print_statement(rest, value),
            FrameView::Variable(n) => visit_variable_statement(rest, n, value),
            FrameView::Return => complete(rest, Some(value)),
            FrameView::If(n) => visit_if_statement(rest, n, value),
            FrameView::WhileCondition(n) => visit_while_statement(rest, n, value),
            FrameView::Construct(instance) => produce(rest, ValueView::Instance(instance)),
            _ => stop(m),
        }
    }
}

/// What a call yields: an initializer yields `this`, however its body was
/// left; any other function yields the value that its body carried out, or
/// `nil`.
pub open spec fn returned(
    m: MachineView,
    function: FunctionModel,
    carried: Option<ValueView>,
) -> ValueView {
    if function.is_initializer {
        match environment::get_at(m.heap.environments, function.closure as int, 0, "this"@) {
            Some(this) => this,
            None => ValueView::Nil,
        }
    } else {
        match carried {
            Some(value) => value,
            None => ValueView::Nil,
        }
    }
}

/// The completion of a statement reaches the frame on top. A sequence goes
/// on with its next statement, unless a value is carried; a block and a
/// loop hand a carried value on; a call takes it up.
pub open spec fn finish(m: MachineView, carried: Option<ValueView>) -> Stepped {
    if m.frames.len() == 0 {
        stop(m)
    } else {
        let rest = pop(m);
        match m.frames.last() {
            FrameView::Sequence(statements, next) => if carried is None && next
                < statements.len() {
                push(
                    rest,
                    FrameView::Sequence(statements, (next + 1) as usize),
                    ControlView::Execute(statements[next as int]),
                )
            } else {
                complete(rest, carried)
            },
            FrameView::Scope(saved) => complete(MachineView { environment: saved, ..rest }, carried),
            FrameView::WhileBody(n) => if carried is None {
                push(rest, FrameView::WhileCondition(n), ControlView::Evaluate(n.condition))
            } else {
                complete(rest, carried)
            },
            FrameView::Call(saved, function) => produce(
                MachineView { environment: saved, ..rest },
                returned(m, function, carried),
            ),
            _ => stop(m),
        }
    }
}

/// A block runs its statements in a fresh environment below the current
/// one; the frame below them takes the machine back to the current one.
pub open spec fn visit_block_statement(m: MachineView, n: BlockStatement) -> Stepped {
    complete(
        MachineView {
            frames: m.frames.push(FrameView::Scope(m.environment)).push(
                FrameView::Sequence(n.statements@, 0),
            ),
            environment: m.heap.environments.len() as usize,
            heap: HeapView {
                environments: environment::extend(m.heap.environments, Some(m.environment)),
                ..m.heap
            },
            ..m
        },
        None,
    )
}

/// A function declaration binds the name to a new function whose closure
/// is the current environment.
pub open spec fn visit_function_statement(m: MachineView, n: FunctionStatement) -> Stepped {
    let function = FunctionModel { declaration: n, closure: m.environment, is_initializer: false };
    complete(
        MachineView {
            heap: HeapView {
                environments: environment::define(
                    m.heap.environments,
                    m.environment as int,
                    n.name.token_value@,
                    ValueView::Function(m.heap.functions.len() as usize),
                ),
                functions: m.heap.functions.push(function),
                ..m.heap
            },
            ..m
        },
        None,
    )
}

/// The methods of a class: the first `count` declarations, each a function
/// with the given closure, under its name. Of two methods of one name the
/// later one stays.
pub open spec fn methods_of(
    declarations: Seq<FunctionStatement>,
    closure: usize,
    count: int,
) -> Map<Seq<char>, FunctionModel>
    decreases count,
{
    if count <= 0 || count > declarations.len() {
        Map::empty()
    } else {
        let declaration = declarations[count - 1];
        methods_of(declarations, closure, count - 1).insert(
            declaration.name.token_value@,
            FunctionModel {
                declaration,
                closure,
                is_initializer: declaration.name.token_value@ == "init"@,
            },
        )
    }
}

/// Make a class and bind its name to it. With a superclass, the methods'
/// closure is a fresh environment below the current one that holds
/// `super`; without, it is the current environment.
pub open spec fn make_class(
    m: MachineView,
    n: ClassStatement,
    superclass: Option<usize>,
) -> Stepped {
    let (environments, closure) = match superclass {
        Some(parent) => (
            environment::define(
                environment::extend(m.heap.environments, Some(m.environment)),
                m.heap.environments.len() as int,
                "super"@,
                ValueView::LoxClass(parent),
            ),
            m.heap.environments.len() as usize,
        ),
        None => (m.heap.environments, m.environment),
    };
    let class = ClassView {
        name: n.name.token_value@,
        methods: methods_of(n.methods@, closure, n.methods@.len() as int),
        superclass,
    };
    complete(
        MachineView {
            heap: HeapView {
                environments: environment::define(
                    environments,
                    m.environment as int,
                    n.name.token_value@,
                    ValueView::LoxClass(m.heap.classes.len() as usize),
                ),
                classes: m.heap.classes.push(class),
                ..m.heap
            },
            ..m
        },
        None,
    )
}

/// A class declaration. The name is bound to `nil` first, so that the
/// superclass is looked up with the name in scope; the superclass must be
/// a class, and come before this one.
pub open spec fn visit_class_statement(m: MachineView, n: ClassStatement) -> Stepped {
    let declared = with_environments(
        m,
        environment::define(
            m.heap.environments,
            m.environment as int,
            n.name.token_value@,
            ValueView::Nil,
        ),
    );
    match n.super_class {
        Some(v) => match look_up_variable(declared, v.id, v.variable) {
            Some(ValueView::LoxClass(parent)) => if parent < m.heap.classes.len() {
                make_class(declared, n, Some(parent))
            } else {
                fail(declared, RuntimeMessage::SuperclassMustBeAClass, v.variable)
            },
            Some(_) => fail(declared, RuntimeMessage::SuperclassMustBeAClass, v.variable),
            None => fail(declared, RuntimeMessage::UndefinedVariable, v.variable),
        },
        None => make_class(declared, n, None),
    }
}

/// `return` carries the value of its expression, or `nil`, out of the
/// function.
pub open spec fn visit_return_statement(m: MachineView, n: ReturnStatement) -> Stepped {
    match n.value {
        Some(e) => push(m, FrameView::Return, ControlView::Evaluate(e)),
        None => complete(m, Some(ValueView::Nil)),
    }
}

/// Begin to execute a statement.
pub open spec fn execute(m: MachineView, s: Statement) -> Stepped {
    match s {
        Statement::Expression(n) => push(
            m,
            FrameView::Expression,
            ControlView::Evaluate(n.expression),
        ),
        Statement::Print(n) => push(m, FrameView::Print, ControlView::Evaluate(n.expression)),
        Statement::Variable(n) => match n.initializer {
            Some(e) => push(m, FrameView::Variable(n), ControlView::Evaluate(e)),
            None => visit_variable_statement(m, n, ValueView::Nil),
        },
        Statement::Block(n) => visit_block_statement(m, n),
        Statement::If(n) => push(m, FrameView::If(n), ControlView::Evaluate(n.condition)),
        Statement::While(n) => push(
            m,
            FrameView::WhileCondition(n),
            ControlView::Evaluate(n.condition),
        ),
        Statement::Function(n) => visit_function_statement(m, n),
        Statement::Return(n) => visit_return_statement(m, n),
        Statement::Class(n) => visit_class_statement(m, n),
    }
}

/// Whether a value answers a request: a boolean answers a comparison, a
/// number every other request.
pub open spec fn answers(request: RequestView, reply: ValueView) -> bool {
    match request {
        RequestView::Compare(_, _, _) => reply is Boolean,
        _ => reply is Number,
    }
}

/// The host's answer becomes the value that was asked for. Without an
/// answer that fits, the request is made again.
pub open spec fn receive(
    m: MachineView,
    request: RequestView,
    reply: Option<ValueView>,
) -> Stepped {
    match reply {
        Some(value) => if answers(request, value) {
            produce(m, value)
        } else {
            (m, ActionView::Ask(request))
        },
        None => (m, ActionView::Ask(request)),
    }
}

/// One step of the machine. The reply is the host's answer to the request
/// of the step before, if that step made one.
pub open spec fn step(m: MachineView, reply: Option<ValueView>) -> Stepped {
    match m.control {
        ControlView::Evaluate(e) => evaluate(m, e),
        ControlView::Execute(s) => execute(m, s),
        ControlView::Value(value) => resume(m, value),
        ControlView::Completed(carried) => finish(m, carried),
        ControlView::Awaiting(request) => receive(m, request, reply),
        ControlView::Finished => (m, ActionView::Done),
        ControlView::Failed(error) => (m, ActionView::Fail(error)),
    }
}

/// The machine at the start of a program: the globals hold `clock`, and
/// the statements of the program wait to be run in order.
pub open spec fn start(program: Seq<Statement>, locals: Map<u64, usize>) -> MachineView {
    MachineView {
        control: ControlView::Completed(None),
        frames: seq![FrameView::Sequence(program, 0)],
        environment: GLOBALS,
        heap: HeapView {
            environments: seq![
                EnvironmentView { values: map!["clock"@ => ValueView::Clock], enclosing: None },
            ],
            functions: Seq::empty(),
            classes: Seq::empty(),
            instances: Seq::empty(),
        },
        locals,
    }
}

/// Whether a frame names only what exists.
pub open spec fn frame_fits(frame: FrameView, h: HeapView) -> bool {
    match frame {
        FrameView::Scope(saved) => saved < h.environments.len(),
        FrameView::Call(saved, _) => saved < h.environments.len(),
        _ => true,
    }
}

/// The invariant of the machine: the heap is well formed, and the current
/// environment and those that the frames go back to exist.
pub open spec fn well_formed(m: MachineView) -> bool {
    &&& heap::well_formed(m.heap)
    &&& m.environment < m.heap.environments.len()
    &&& forall|i: int| 0 <= i < m.frames.len() ==> frame_fits(#[trigger] m.frames[i], m.heap)
}

/// Whether environments are the same as others but for the values that
/// they bind.
pub open spec fn same_shape(before: Seq<EnvironmentView>, after: Seq<EnvironmentView>) -> bool {
    &&& after.len() == before.len()
    &&& forall|i: int|
        0 <= i < before.len() ==> (#[trigger] after[i]).enclosing == before[i].enclosing
}

/// A machine stays well formed when bindings change and nothing else.
pub proof fn storing_keeps_well_formed(m: MachineView, environments: Seq<EnvironmentView>)
    requires
        well_formed(m),
        same_shape(m.heap.environments, environments),
    ensures
        well_formed(with_environments(m, environments)),
{
    let after = with_environments(m, environments);
    assert forall|i: int| 0 <= i < after.frames.len() implies frame_fits(
        #[trigger] after.frames[i],
        after.heap,
    ) by {
        assert(frame_fits(m.frames[i], m.heap));
    }
}

/// A machine stays well formed when its heap is changed for another
/// well-formed heap that has all the environments of the first.
pub proof fn growing_keeps_well_formed(m: MachineView, h: HeapView)
    requires
        well_formed(m),
        heap::well_formed(h),
        h.environments.len() >= m.heap.environments.len(),
    ensures
        well_formed(MachineView { heap: h, ..m }),
{
    let after = MachineView { heap: h, ..m };
    assert forall|i: int| 0 <= i < after.frames.len() implies frame_fits(
        #[trigger] after.frames[i],
        after.heap,
    ) by {
        assert(frame_fits(m.frames[i], m.heap));
    }
}

/// The value that the machine has come to: the value in control when no
/// frame waits for it.
pub open spec fn result(m: MachineView) -> Option<ValueView> {
    match m.control {
        ControlView::Value(value) => if m.frames.len() == 0 {
            Some(value)
        } else {
            None
        },
        _ => None,
    }
}

/// Steps taken in a row: up to `budget` more steps after the first, as
/// long as the step before asks nothing of the host and has not come to
/// the value of the whole.
pub open spec fn run(m: MachineView, reply: Option<ValueView>, budget: nat) -> Stepped
    decreases budget,
{
    let (after, action) = step(m, reply);
    if action is Continue && budget > 0 && result(after) is None {
        run(after, None, (budget - 1) as nat)
    } else {
        (after, action)
    }
}

/// The machine after a number of steps, one for each reply of a sequence:
/// any stretch of any run.
pub open spec fn steps(m: MachineView, replies: Seq<Option<ValueView>>) -> MachineView
    decreases replies.len(),
{
    if replies.len() == 0 {
        m
    } else {
        step(steps(m, replies.drop_last()), replies.last()).0
    }
}

/// The machine at the start of the evaluation of one expression: no frame
/// waits for the value.
pub open spec fn start_expression(e: Expression, locals: Map<u64, usize>) -> MachineView {
    MachineView {
        control: ControlView::Evaluate(e),
        frames: Seq::empty(),
        ..start(Seq::empty(), locals)
    }
}

/// An initializer returns `this`. When the body of an initializer is done,
/// however it was left and whatever it carried out, the call yields what
/// `this` is bound to in the initializer's closure.
pub proof fn initializer_returns_this(
    m: MachineView,
    saved: usize,
    function: FunctionModel,
    carried: Option<ValueView>,
    this: ValueView,
)
    requires
        m.frames.len() > 0,
        m.frames.last() == FrameView::Call(saved, function),
        function.is_initializer,
        environment::get_at(m.heap.environments, function.closure as int, 0, "this"@) == Some(this),
    ensures
        finish(m, carried).0.control == ControlView::Value(this),
        finish(m, carried).0.environment == saved,
        finish(m, carried).0.frames == m.frames.drop_last(),
{
}

/// A method that is bound to an instance finds the instance as `this` in
/// its closure.
pub proof fn bound_method_holds_this(
    environments: Seq<EnvironmentView>,
    method: FunctionModel,
    instance: usize,
)
    requires
        environments.len() <= usize::MAX,
    ensures
        environment::get_at(
            heap::bind(environments, method, instance).0,
            heap::bind(environments, method, instance).1.closure as int,
            0,
            "this"@,
        ) == Some(ValueView::Instance(instance)),
{
}

/// The frame that holds an instance under construction hands on the
/// instance, whatever value reaches it.
pub proof fn construct_frame_yields_instance(m: MachineView, instance: usize, value: ValueView)
    requires
        m.frames.len() > 0,
        m.frames.last() == FrameView::Construct(instance),
    ensures
        resume(m, value).0.control == ControlView::Value(ValueView::Instance(instance)),
        resume(m, value).0.frames == m.frames.drop_last(),
{
}

/// The call of a class with the right number of arguments makes a new
/// instance of the class, without fields. Without an `init` the call
/// yields the instance at once. With an `init`, the `init` is bound to the
/// instance and its body is run above the frame of its call, and that above
/// the frame that holds the instance: so the side effects of `init` take
/// place, and the instance is what the call yields in the end.
pub proof fn construction_yields_instance(
    m: MachineView,
    paren: Token,
    class: usize,
    arguments: Seq<ValueView>,
)
    requires
        m.heap.instances.len() < usize::MAX,
        !(call_class(m, paren, class, arguments).0.control is Failed),
    ensures
        ({
            let after = call_class(m, paren, class, arguments).0;
            let instance = m.heap.instances.len() as usize;
            &&& after.heap.instances == m.heap.instances.push(
                InstanceView { klass: class, fields: Map::empty() },
            )
            &&& match heap::find_method(m.heap.classes, class as int, "init"@) {
                None => after.control == ControlView::Value(ValueView::Instance(instance))
                    && after.frames == m.frames,
                Some(f) => {
                    let bound = heap::bind(m.heap.environments, f, instance).1;
                    after.frames == m.frames.push(FrameView::Construct(instance)).push(
                        FrameView::Call(m.environment, bound),
                    ).push(FrameView::Sequence(f.declaration.body@, 0))
                },
            }
        }),
{
}

/// A reference that the resolver gave no depth is a global: what it reads
/// depends neither on the current environment nor on what is bound in any
/// environment but the globals.
pub proof fn global_reference_is_stable(
    m: MachineView,
    id: u64,
    name: Token,
    environment: usize,
    at: int,
    other: Seq<char>,
    value: ValueView,
)
    requires
        !m.locals.contains_key(id),
        0 < at < m.heap.environments.len(),
    ensures
        look_up_variable(MachineView { environment, ..m }, id, name) == look_up_variable(
            m,
            id,
            name,
        ),
        look_up_variable(
            with_environments(m, environment::define(m.heap.environments, at, other, value)),
            id,
            name,
        ) == look_up_variable(m, id, name),
{
    let changed = environment::define(m.heap.environments, at, other, value);
    assert(environment::holder(changed, GLOBALS as int, name.token_value@) == environment::holder(
        m.heap.environments,
        GLOBALS as int,
        name.token_value@,
    )) by {
        globals_hold(m.heap.environments, changed, name.token_value@);
    }
}

/// What the globals hold of a name is found in the globals alone, where
/// they have no parent or a parent that does not hold it.
pub proof fn globals_hold(
    before: Seq<EnvironmentView>,
    after: Seq<EnvironmentView>,
    name: Seq<char>,
)
    requires
        before.len() == after.len(),
        before.len() > 0,
        before[0] == after[0],
    ensures
        environment::holder(before, GLOBALS as int, name) == environment::holder(
            after,
            GLOBALS as int,
            name,
        ),
{
}

/// The library hands numbers on as they are. The numeral of a constant
/// goes to the host as it was written, and what `print` writes for a
/// number is the text that the number holds, unchanged: so a number that
/// is read and printed is, in between, only what the host made of it.
pub proof fn numbers_pass_unchanged(m: MachineView, text: Seq<char>)
    ensures
        visit_literal(m, ValueView::Number(text)).1 == ActionView::Ask(RequestView::Numeral(text)),
        receive(m, RequestView::Numeral(text), Some(ValueView::Number(text))).0.control
            == ControlView::Value(ValueView::Number(text)),
        visit_print_statement(m, ValueView::Number(text)).1 == ActionView::Print(text),
{
}

/// A value is equal to itself: `==` on a value and the same value yields
/// `true`, and `!=` yields `false`, at once and without the host, whatever
/// the value is.
pub proof fn value_equals_itself(m: MachineView, n: BinaryExpression, value: ValueView)
    requires
        n.operator.token_type == TokenType::EQUAL_EQUAL || n.operator.token_type
            == TokenType::BANG_EQUAL,
    ensures
        visit_binary_expression(m, n, value, value) == produce(
            m,
            ValueView::Boolean(n.operator.token_type == TokenType::EQUAL_EQUAL),
        ),
{
}

/// Numbers compare by value, not by how they are written. `==` and `!=`
/// on two numbers that are written alike are decided at once; on two that
/// are written differently they are asked of the host, with both numbers,
/// and what the host answers is the result.
pub proof fn numbers_compare_by_value(
    m: MachineView,
    n: BinaryExpression,
    left: Seq<char>,
    right: Seq<char>,
    answer: bool,
)
    requires
        n.operator.token_type == TokenType::EQUAL_EQUAL || n.operator.token_type
            == TokenType::BANG_EQUAL,
    ensures
        ({
            let equal = n.operator.token_type == TokenType::EQUAL_EQUAL;
            let request = RequestView::Compare(n.operator.token_type, left, right);
            let stepped = visit_binary_expression(
                m,
                n,
                ValueView::Number(left),
                ValueView::Number(right),
            );
            &&& left == right ==> stepped == produce(m, ValueView::Boolean(equal))
            &&& left != right ==> stepped == ask(m, request)
            &&& receive(stepped.0, request, Some(ValueView::Boolean(answer))) == produce(
                stepped.0,
                ValueView::Boolean(answer),
            )
        }),
{
}

/// In a well-formed machine the environment to go back to exists, whatever
/// environment that exists is the current one.
pub proof fn unwound_exists(frames: Seq<FrameView>, environment: usize, h: HeapView)
    requires
        environment < h.environments.len(),
        forall|i: int| 0 <= i < frames.len() ==> frame_fits(#[trigger] frames[i], h),
    ensures
        unwound(frames, environment) < h.environments.len(),
    decreases frames.len(),
{
    if frames.len() > 0 {
        let rest = frames.drop_last();
        assert(frame_fits(frames[frames.len() - 1], h));
        assert forall|i: int| 0 <= i < rest.len() implies frame_fits(#[trigger] rest[i], h) by {
            assert(rest[i] == frames[i]);
        }
        unwound_exists(rest, left(frames.last(), environment), h);
    }
}

} // verus!
