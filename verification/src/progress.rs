//! The frames of the machine fit together.
//!
//! Every frame waits either for the value of an expression or for the
//! completion of a statement, and hands on one or the other when it is
//! done. In a machine that was started and has taken steps, each frame
//! hands on what the frame below it waits for, and the control holds what
//! the frame on top waits for. So no value and no completion is ever lost,
//! and the machine stops only when no frame is left.
//!
//! A step works on the top of the stack only, and a block and a call leave
//! the environment that they came from in a frame of their own. When the
//! statements of the block or the body of the function are done, with or
//! without a carried value, the machine goes back to that environment. When
//! the run fails, every open block and call is left at once, and the
//! machine goes back to the environment that was current before the
//! outermost of them was entered. That environment is the same through the
//! whole of a run, whatever is entered and left on the way.

use vstd::prelude::*;
use crate::ast::{Expression, Statement};
use crate::token::Token;
use crate::value::ValueView;
use crate::heap::FunctionModel;
use crate::machine::{ControlView, FrameView, MachineView};
use crate::error::RuntimeMessage;
use crate::semantics::{
    activate, call_class, evaluate, execute, fail, finish, left, next_argument, resume, run, start,
    steps, unwound,
    call_value, start_expression, step, visit_call_expression,
};

verus! {

/// Whether a frame waits for the value of an expression; if not, it waits
/// for the completion of a statement.
pub open spec fn takes_value(frame: FrameView) -> bool {
    match frame {
        FrameView::Sequence(_, _) => false,
        FrameView::Scope(_) => false,
        FrameView::WhileBody(_) => false,
        FrameView::Call(_, _) => false,
        _ => true,
    }
}

/// Whether a frame hands on a value when it is done; if not, it hands on
/// the completion of a statement.
pub open spec fn gives_value(frame: FrameView) -> bool {
    match frame {
        FrameView::Unary(_) => true,
        FrameView::BinaryLeft(_) => true,
        FrameView::BinaryRight(_, _) => true,
        FrameView::Logical(_) => true,
        FrameView::Assign(_) => true,
        FrameView::Callee(_) => true,
        FrameView::Argument(_, _, _) => true,
        FrameView::Get(_) => true,
        FrameView::SetObject(_) => true,
        FrameView::SetValue(_, _) => true,
        FrameView::Call(_, _) => true,
        FrameView::Construct(_) => true,
        _ => false,
    }
}

/// Whether what is on top of the first `height` frames is waited for as a
/// value. `whole` says it of the machine as a whole: whether it was started
/// on an expression.
pub open spec fn wanted(frames: Seq<FrameView>, height: int, whole: bool) -> bool {
    if height <= 0 || height > frames.len() {
        whole
    } else {
        takes_value(frames[height - 1])
    }
}

/// Whether frames fit together: each hands on what is waited for below it.
pub open spec fn stacked(frames: Seq<FrameView>, whole: bool) -> bool {
    forall|i: int|
        0 <= i < frames.len() ==> gives_value(#[trigger] frames[i]) == wanted(frames, i, whole)
}

/// Whether the frames fit together and the control holds what is waited
/// for on top of them.
pub open spec fn coherent(m: MachineView, whole: bool) -> bool {
    &&& stacked(m.frames, whole)
    &&& match m.control {
        ControlView::Evaluate(_) => wanted(m.frames, m.frames.len() as int, whole),
        ControlView::Value(_) => wanted(m.frames, m.frames.len() as int, whole),
        ControlView::Awaiting(_) => wanted(m.frames, m.frames.len() as int, whole),
        ControlView::Execute(_) => !wanted(m.frames, m.frames.len() as int, whole),
        ControlView::Completed(_) => !wanted(m.frames, m.frames.len() as int, whole),
        ControlView::Finished => true,
        ControlView::Failed(_) => true,
    }
}

/// Frames that fit together still do with a frame on top that hands on
/// what was waited for there.
pub proof fn stacked_push(frames: Seq<FrameView>, frame: FrameView, whole: bool)
    requires
        stacked(frames, whole),
        gives_value(frame) == wanted(frames, frames.len() as int, whole),
    ensures
        stacked(frames.push(frame), whole),
        wanted(frames.push(frame), (frames.len() + 1) as int, whole) == takes_value(frame),
{
    let after = frames.push(frame);
    assert forall|i: int| 0 <= i < after.len() implies gives_value(#[trigger] after[i]) == wanted(
        after,
        i,
        whole,
    ) by {
        if i < frames.len() {
            assert(after[i] == frames[i]);
            if i > 0 {
                assert(after[i - 1] == frames[i - 1]);
            }
        } else {
            if i > 0 {
                assert(after[i - 1] == frames[i - 1]);
            }
        }
    }
}

/// Frames that fit together still do without the frame on top, and what is
/// waited for on top of the rest is what that frame handed on.
pub proof fn stacked_pop(frames: Seq<FrameView>, whole: bool)
    requires
        stacked(frames, whole),
        frames.len() > 0,
    ensures
        stacked(frames.drop_last(), whole),
        wanted(frames.drop_last(), frames.len() - 1, whole) == gives_value(frames.last()),
{
    let after = frames.drop_last();
    assert forall|i: int| 0 <= i < after.len() implies gives_value(#[trigger] after[i]) == wanted(
        after,
        i,
        whole,
    ) by {
        assert(after[i] == frames[i]);
        if i > 0 {
            assert(after[i - 1] == frames[i - 1]);
        }
    }
    assert(gives_value(frames[frames.len() - 1]) == wanted(frames, frames.len() - 1, whole));
    if frames.len() > 1 {
        assert(after[frames.len() - 2] == frames[frames.len() - 2]);
    }
}

/// A machine that is started on a program is coherent.
pub proof fn start_is_coherent(program: Seq<Statement>, locals: Map<u64, usize>)
    ensures
        coherent(start(program, locals), false),
{
}

/// A machine that is started on an expression is coherent.
pub proof fn start_expression_is_coherent(e: Expression, locals: Map<u64, usize>)
    ensures
        coherent(start_expression(e, locals), true),
{
}

/// Entering a function keeps a machine coherent whose control holds a
/// value.
proof fn activate_keeps_coherent(
    m: MachineView,
    function: FunctionModel,
    arguments: Seq<ValueView>,
    whole: bool,
)
    requires
        stacked(m.frames, whole),
        wanted(m.frames, m.frames.len() as int, whole),
    ensures
        coherent(activate(m, function, arguments).0, whole),
{
    stacked_push(m.frames, FrameView::Call(m.environment, function), whole);
    stacked_push(
        m.frames.push(FrameView::Call(m.environment, function)),
        FrameView::Sequence(function.declaration.body@, 0),
        whole,
    );
}

/// A call keeps a machine coherent whose control holds a value.
proof fn call_keeps_coherent(
    m: MachineView,
    n: crate::ast::CallExpression,
    callee: ValueView,
    arguments: Seq<ValueView>,
    whole: bool,
)
    requires
        stacked(m.frames, whole),
        wanted(m.frames, m.frames.len() as int, whole),
    ensures
        coherent(next_argument(m, n, callee, arguments).0, whole),
        coherent(visit_call_expression(m, n, callee, arguments).0, whole),
        coherent(call_value(m, n.paren, callee, arguments).0, whole),
{
    stacked_push(m.frames, FrameView::Argument(n, callee, arguments), whole);
    match callee {
        ValueView::Function(f) => {
            if f < m.heap.functions.len() {
                activate_keeps_coherent(m, m.heap.functions[f as int], arguments, whole);
            }
        },
        ValueView::LoxClass(c) => {
            if c < m.heap.classes.len() {
                class_keeps_coherent(m, n.paren, c, arguments, whole);
            }
        },
        _ => {},
    }
}

/// The call of a class keeps a machine coherent whose control holds a
/// value.
proof fn class_keeps_coherent(
    m: MachineView,
    paren: Token,
    class: usize,
    arguments: Seq<ValueView>,
    whole: bool,
)
    requires
        stacked(m.frames, whole),
        wanted(m.frames, m.frames.len() as int, whole),
    ensures
        coherent(call_class(m, paren, class, arguments).0, whole),
{
    let initializer = crate::heap::find_method(m.heap.classes, class as int, "init"@);
    match initializer {
        Some(f) => {
            let instance = m.heap.instances.len() as usize;
            stacked_push(m.frames, FrameView::Construct(instance), whole);
            let made = MachineView {
                heap: crate::heap::HeapView {
                    instances: m.heap.instances.push(
                        crate::heap::InstanceView { klass: class, fields: Map::empty() },
                    ),
                    ..m.heap
                },
                ..m
            };
            let (environments, bound) = crate::heap::bind(made.heap.environments, f, instance);
            let waiting = MachineView {
                frames: made.frames.push(FrameView::Construct(instance)),
                heap: crate::heap::HeapView { environments, ..made.heap },
                ..made
            };
            activate_keeps_coherent(waiting, bound, arguments, whole);
        },
        None => {},
    }
}

/// Beginning to evaluate an expression keeps a machine coherent.
proof fn evaluate_keeps_coherent(m: MachineView, e: Expression, whole: bool)
    requires
        coherent(m, whole),
        m.control == ControlView::Evaluate(e),
    ensures
        coherent(evaluate(m, e).0, whole),
{
    match e {
        Expression::Unary(n) => {
            stacked_push(m.frames, FrameView::Unary(n), whole);
        },
        Expression::Binary(n) => {
            stacked_push(m.frames, FrameView::BinaryLeft(n), whole);
        },
        Expression::Logical(n) => {
            stacked_push(m.frames, FrameView::Logical(n), whole);
        },
        Expression::Assignment(n) => {
            stacked_push(m.frames, FrameView::Assign(n), whole);
        },
        Expression::Call(n) => {
            stacked_push(m.frames, FrameView::Callee(n), whole);
        },
        Expression::Get(n) => {
            stacked_push(m.frames, FrameView::Get(n), whole);
        },
        Expression::SetField(n) => {
            stacked_push(m.frames, FrameView::SetObject(n), whole);
        },
        _ => {},
    }
}

/// Beginning to execute a statement keeps a machine coherent.
proof fn execute_keeps_coherent(m: MachineView, s: Statement, whole: bool)
    requires
        coherent(m, whole),
        m.control == ControlView::Execute(s),
    ensures
        coherent(execute(m, s).0, whole),
{
    match s {
        Statement::Expression(n) => {
            stacked_push(m.frames, FrameView::Expression, whole);
        },
        Statement::Print(n) => {
            stacked_push(m.frames, FrameView::Print, whole);
        },
        Statement::Variable(n) => {
            stacked_push(m.frames, FrameView::Variable(n), whole);
        },
        Statement::Block(n) => {
            stacked_push(m.frames, FrameView::Scope(m.environment), whole);
            stacked_push(
                m.frames.push(FrameView::Scope(m.environment)),
                FrameView::Sequence(n.statements@, 0),
                whole,
            );
        },
        Statement::If(n) => {
            stacked_push(m.frames, FrameView::If(n), whole);
        },
        Statement::While(n) => {
            stacked_push(m.frames, FrameView::WhileCondition(n), whole);
        },
        Statement::Return(n) => {
            stacked_push(m.frames, FrameView::Return, whole);
        },
        _ => {},
    }
}

/// A value that reaches the frame on top keeps a machine coherent.
proof fn resume_keeps_coherent(m: MachineView, value: ValueView, whole: bool)
    requires
        coherent(m, whole),
        m.control == ControlView::Value(value),
    ensures
        coherent(resume(m, value).0, whole),
        resume(m, value).1 is Done ==> m.frames.len() == 0,
{
    if m.frames.len() > 0 {
        stacked_pop(m.frames, whole);
        let rest = crate::semantics::pop(m);
        match m.frames.last() {
            FrameView::BinaryLeft(n) => {
                stacked_push(rest.frames, FrameView::BinaryRight(n, value), whole);
            },
            FrameView::Callee(n) => {
                call_keeps_coherent(rest, n, value, Seq::empty(), whole);
            },
            FrameView::Argument(n, callee, arguments) => {
                call_keeps_coherent(rest, n, callee, arguments.push(value), whole);
            },
            FrameView::SetObject(n) => {
                match value {
                    ValueView::Instance(i) => {
                        stacked_push(rest.frames, FrameView::SetValue(n, i), whole);
                    },
                    _ => {},
                }
            },
            FrameView::WhileCondition(n) => {
                stacked_push(rest.frames, FrameView::WhileBody(n), whole);
            },
            _ => {},
        }
    }
}

/// The completion of a statement that reaches the frame on top keeps a
/// machine coherent.
proof fn finish_keeps_coherent(m: MachineView, carried: Option<ValueView>, whole: bool)
    requires
        coherent(m, whole),
        m.control == ControlView::Completed(carried),
    ensures
        coherent(finish(m, carried).0, whole),
        finish(m, carried).1 is Done ==> m.frames.len() == 0,
{
    if m.frames.len() > 0 {
        stacked_pop(m.frames, whole);
        let rest = crate::semantics::pop(m);
        match m.frames.last() {
            FrameView::Sequence(statements, next) => {
                stacked_push(
                    rest.frames,
                    FrameView::Sequence(statements, (next + 1) as usize),
                    whole,
                );
            },
            FrameView::WhileBody(n) => {
                stacked_push(rest.frames, FrameView::WhileCondition(n), whole);
            },
            _ => {},
        }
    }
}

/// Every step keeps a machine coherent, and a coherent machine is done
/// only when it has no frame left: no value and no completion is lost on
/// the way.
pub proof fn step_keeps_coherent(m: MachineView, reply: Option<ValueView>, whole: bool)
    requires
        coherent(m, whole),
    ensures
        coherent(step(m, reply).0, whole),
        step(m, reply).1 is Done && !(m.control is Finished) ==> m.frames.len() == 0,
{
    match m.control {
        ControlView::Evaluate(e) => {
            evaluate_keeps_coherent(m, e, whole);
        },
        ControlView::Execute(s) => {
            execute_keeps_coherent(m, s, whole);
        },
        ControlView::Value(value) => {
            resume_keeps_coherent(m, value, whole);
        },
        ControlView::Completed(carried) => {
            finish_keeps_coherent(m, carried, whole);
        },
        _ => {},
    }
}

/// Steps in a row keep a machine coherent.
pub proof fn run_keeps_coherent(m: MachineView, reply: Option<ValueView>, budget: nat, whole: bool)
    requires
        coherent(m, whole),
    ensures
        coherent(run(m, reply, budget).0, whole),
    decreases budget,
{
    step_keeps_coherent(m, reply, whole);
    let (after, action) = step(m, reply);
    if action is Continue && budget > 0 && crate::semantics::result(after) is None {
        run_keeps_coherent(after, None, (budget - 1) as nat, whole);
    }
}

/// A step works on the top of the stack only: every frame below the one on
/// top is still there after the step, unchanged.
pub proof fn step_keeps_lower_frames(m: MachineView, reply: Option<ValueView>, i: int)
    requires
        0 <= i < m.frames.len() - 1,
    ensures
        step(m, reply).0.frames.len() > i,
        step(m, reply).0.frames[i] == m.frames[i],
{
    match m.control {
        ControlView::Value(value) => {
            let rest = crate::semantics::pop(m);
            assert(rest.frames[i] == m.frames[i]);
        },
        ControlView::Completed(carried) => {
            let rest = crate::semantics::pop(m);
            assert(rest.frames[i] == m.frames[i]);
        },
        _ => {},
    }
}

/// A block leaves a frame below its statements that holds the environment
/// that was current when the block was entered.
pub proof fn block_saves_environment(m: MachineView, n: crate::ast::BlockStatement)
    ensures
        ({
            let after = crate::semantics::visit_block_statement(m, n).0;
            &&& after.frames.len() == m.frames.len() + 2
            &&& after.frames[m.frames.len() as int] == FrameView::Scope(m.environment)
            &&& forall|i: int| 0 <= i < m.frames.len() ==> after.frames[i] == m.frames[i]
        }),
{
}

/// A call leaves a frame below the body of the function that holds the
/// environment that was current when the call was made.
pub proof fn call_saves_environment(
    m: MachineView,
    function: FunctionModel,
    arguments: Seq<ValueView>,
)
    ensures
        ({
            let after = activate(m, function, arguments).0;
            &&& after.frames.len() == m.frames.len() + 2
            &&& after.frames[m.frames.len() as int] == FrameView::Call(m.environment, function)
            &&& forall|i: int| 0 <= i < m.frames.len() ==> after.frames[i] == m.frames[i]
        }),
{
}

/// When the statements of a block or the body of a function are done, the
/// machine goes back to the environment that the frame below them holds:
/// whether they ran to their end or a `return` carried a value out of
/// them.
pub proof fn completion_restores_environment(
    m: MachineView,
    carried: Option<ValueView>,
    saved: usize,
)
    requires
        m.frames.len() > 0,
        match m.frames.last() {
            FrameView::Scope(e) => e == saved,
            FrameView::Call(e, _) => e == saved,
            _ => false,
        },
    ensures
        finish(m, carried).0.environment == saved,
        finish(m, carried).0.frames == m.frames.drop_last(),
{
}


/// Whether a frame is that of an open block or call.
pub open spec fn opens(frame: FrameView) -> bool {
    frame is Scope || frame is Call
}

/// With one more frame on top, the environment to go back to is the one
/// from below that frame.
pub proof fn unwound_push(frames: Seq<FrameView>, frame: FrameView, environment: usize)
    ensures
        unwound(frames.push(frame), environment) == unwound(frames, left(frame, environment)),
{
    assert(frames.push(frame).drop_last() =~= frames);
}

/// The environment to go back to is the one saved by the lowest open block
/// or call: the frame of a block or call below which no other is open.
/// Where none is open, it is the current environment.
pub proof fn unwound_is_outermost(frames: Seq<FrameView>, environment: usize, lowest: int)
    requires
        0 <= lowest <= frames.len(),
        forall|j: int| 0 <= j < lowest ==> !opens(#[trigger] frames[j]),
        lowest < frames.len() ==> opens(frames[lowest]),
    ensures
        unwound(frames, environment) == if lowest < frames.len() {
            left(frames[lowest], environment)
        } else {
            environment
        },
    decreases frames.len(),
{
    if frames.len() > 0 {
        let rest = frames.drop_last();
        let below = left(frames.last(), environment);
        assert forall|j: int| 0 <= j < lowest && j < rest.len() implies !opens(
            #[trigger] rest[j],
        ) by {
            assert(rest[j] == frames[j]);
        }
        if lowest < rest.len() {
            assert(rest[lowest] == frames[lowest]);
            unwound_is_outermost(rest, below, lowest);
        } else {
            unwound_is_outermost(rest, below, rest.len() as int);
        }
    }
}

/// Going back twice is going back once.
pub proof fn unwound_twice(frames: Seq<FrameView>, environment: usize)
    ensures
        unwound(frames, unwound(frames, environment)) == unwound(frames, environment),
    decreases frames.len(),
{
    if frames.len() > 0 {
        let rest = frames.drop_last();
        if opens(frames.last()) {
        } else {
            unwound_twice(rest, environment);
        }
    }
}

/// A failure leaves every open block and call. When a statement fails, the
/// machine goes back to the environment that the lowest open block or call
/// has saved: the one that was current before the outermost of them was
/// entered. Where no block and no call is open, it stays where it is.
pub proof fn failure_restores_environment(
    m: MachineView,
    message: RuntimeMessage,
    token: Token,
    lowest: int,
)
    requires
        0 <= lowest <= m.frames.len(),
        forall|j: int| 0 <= j < lowest ==> !opens(#[trigger] m.frames[j]),
        lowest < m.frames.len() ==> opens(m.frames[lowest]),
    ensures
        fail(m, message, token).0.environment == if lowest < m.frames.len() {
            left(m.frames[lowest], m.environment)
        } else {
            m.environment
        },
        fail(m, message, token).0.frames == m.frames,
        fail(m, message, token).0.heap == m.heap,
{
    unwound_is_outermost(m.frames, m.environment, lowest);
}

/// Whether a machine that has failed stands in the environment to go back
/// to.
pub open spec fn settled(m: MachineView) -> bool {
    m.control is Failed ==> m.environment == unwound(m.frames, m.environment)
}

/// Entering a function changes nothing of where to go back to.
proof fn activate_keeps_unwound(m: MachineView, function: FunctionModel, arguments: Seq<ValueView>)
    ensures
        unwound(
            activate(m, function, arguments).0.frames,
            activate(m, function, arguments).0.environment,
        ) == unwound(m.frames, m.environment),
{
    let after = activate(m, function, arguments).0;
    let called = m.frames.push(FrameView::Call(m.environment, function));
    unwound_push(called, FrameView::Sequence(function.declaration.body@, 0), after.environment);
    unwound_push(m.frames, FrameView::Call(m.environment, function), after.environment);
}

/// A call changes nothing of where to go back to, and a call that fails
/// stands there.
proof fn call_keeps_unwound(
    m: MachineView,
    paren: Token,
    callee: ValueView,
    arguments: Seq<ValueView>,
)
    ensures
        unwound(
            call_value(m, paren, callee, arguments).0.frames,
            call_value(m, paren, callee, arguments).0.environment,
        ) == unwound(m.frames, m.environment),
        settled(call_value(m, paren, callee, arguments).0),
{
    unwound_twice(m.frames, m.environment);
    match callee {
        ValueView::Function(f) => {
            if f < m.heap.functions.len() {
                activate_keeps_unwound(m, m.heap.functions[f as int], arguments);
            }
        },
        ValueView::LoxClass(c) => {
            if c < m.heap.classes.len() {
                match crate::heap::find_method(m.heap.classes, c as int, "init"@) {
                    Some(f) => {
                        let instance = m.heap.instances.len() as usize;
                        let made = MachineView {
                            heap: crate::heap::HeapView {
                                instances: m.heap.instances.push(
                                    crate::heap::InstanceView { klass: c, fields: Map::empty() },
                                ),
                                ..m.heap
                            },
                            ..m
                        };
                        let (environments, bound) = crate::heap::bind(
                            made.heap.environments,
                            f,
                            instance,
                        );
                        let waiting = MachineView {
                            frames: made.frames.push(FrameView::Construct(instance)),
                            heap: crate::heap::HeapView { environments, ..made.heap },
                            ..made
                        };
                        unwound_push(m.frames, FrameView::Construct(instance), m.environment);
                        activate_keeps_unwound(waiting, bound, arguments);
                    },
                    None => {},
                }
            }
        },
        _ => {},
    }
}

/// The environment to go back to is the same after every step: nothing
/// that is entered or left on the way changes it. And a step that fails
/// leaves the machine in that environment.
pub proof fn step_keeps_unwound(m: MachineView, reply: Option<ValueView>)
    requires
        settled(m),
    ensures
        unwound(step(m, reply).0.frames, step(m, reply).0.environment) == unwound(
            m.frames,
            m.environment,
        ),
        settled(step(m, reply).0),
{
    unwound_twice(m.frames, m.environment);
    match m.control {
        ControlView::Evaluate(e) => {
            match e {
                Expression::Unary(n) => {
                    unwound_push(m.frames, FrameView::Unary(n), m.environment);
                },
                Expression::Binary(n) => {
                    unwound_push(m.frames, FrameView::BinaryLeft(n), m.environment);
                },
                Expression::Logical(n) => {
                    unwound_push(m.frames, FrameView::Logical(n), m.environment);
                },
                Expression::Assignment(n) => {
                    unwound_push(m.frames, FrameView::Assign(n), m.environment);
                },
                Expression::Call(n) => {
                    unwound_push(m.frames, FrameView::Callee(n), m.environment);
                },
                Expression::Get(n) => {
                    unwound_push(m.frames, FrameView::Get(n), m.environment);
                },
                Expression::SetField(n) => {
                    unwound_push(m.frames, FrameView::SetObject(n), m.environment);
                },
                _ => {},
            }
        },
        ControlView::Execute(s) => {
            match s {
                Statement::Expression(n) => {
                    unwound_push(m.frames, FrameView::Expression, m.environment);
                },
                Statement::Print(n) => {
                    unwound_push(m.frames, FrameView::Print, m.environment);
                },
                Statement::Variable(n) => {
                    unwound_push(m.frames, FrameView::Variable(n), m.environment);
                },
                Statement::Block(n) => {
                    let after = crate::semantics::visit_block_statement(m, n).0;
                    unwound_push(
                        m.frames.push(FrameView::Scope(m.environment)),
                        FrameView::Sequence(n.statements@, 0),
                        after.environment,
                    );
                    unwound_push(m.frames, FrameView::Scope(m.environment), after.environment);
                },
                Statement::If(n) => {
                    unwound_push(m.frames, FrameView::If(n), m.environment);
                },
                Statement::While(n) => {
                    unwound_push(m.frames, FrameView::WhileCondition(n), m.environment);
                },
                Statement::Return(n) => {
                    unwound_push(m.frames, FrameView::Return, m.environment);
                },
                _ => {},
            }
        },
        ControlView::Value(value) => {
            if m.frames.len() > 0 {
                let rest = crate::semantics::pop(m);
                unwound_twice(rest.frames, rest.environment);
                match m.frames.last() {
                    FrameView::BinaryLeft(n) => {
                        unwound_push(rest.frames, FrameView::BinaryRight(n, value), m.environment);
                    },
                    FrameView::Callee(n) => {
                        unwound_push(
                            rest.frames,
                            FrameView::Argument(n, value, Seq::empty()),
                            m.environment,
                        );
                        call_keeps_unwound(rest, n.paren, value, Seq::empty());
                    },
                    FrameView::Argument(n, callee, arguments) => {
                        unwound_push(
                            rest.frames,
                            FrameView::Argument(n, callee, arguments.push(value)),
                            m.environment,
                        );
                        call_keeps_unwound(rest, n.paren, callee, arguments.push(value));
                    },
                    FrameView::SetObject(n) => {
                        match value {
                            ValueView::Instance(i) => {
                                unwound_push(rest.frames, FrameView::SetValue(n, i), m.environment);
                            },
                            _ => {},
                        }
                    },
                    FrameView::WhileCondition(n) => {
                        unwound_push(rest.frames, FrameView::WhileBody(n), m.environment);
                    },
                    _ => {},
                }
            }
        },
        ControlView::Completed(carried) => {
            if m.frames.len() > 0 {
                let rest = crate::semantics::pop(m);
                match m.frames.last() {
                    FrameView::Sequence(statements, next) => {
                        unwound_push(
                            rest.frames,
                            FrameView::Sequence(statements, (next + 1) as usize),
                            m.environment,
                        );
                    },
                    FrameView::WhileBody(n) => {
                        unwound_push(rest.frames, FrameView::WhileCondition(n), m.environment);
                    },
                    _ => {},
                }
            }
        },
        _ => {},
    }
}

/// Through any stretch of a run, the environment to go back to is the
/// same; and if the run has failed, the machine stands in it.
pub proof fn steps_keep_unwound(m: MachineView, replies: Seq<Option<ValueView>>)
    requires
        settled(m),
    ensures
        unwound(steps(m, replies).frames, steps(m, replies).environment) == unwound(
            m.frames,
            m.environment,
        ),
        settled(steps(m, replies)),
    decreases replies.len(),
{
    if replies.len() > 0 {
        steps_keep_unwound(m, replies.drop_last());
        step_keeps_unwound(steps(m, replies.drop_last()), replies.last());
    }
}

/// A block restores the environment on every path. Where a block is
/// entered with no other block or call open, then whatever steps follow,
/// and whether they run the block to its end, carry a value out of it, or
/// fail, the environment to go back to is the one in which the block was
/// entered: and when the run has failed, the machine stands in it.
pub proof fn block_restores_environment_on_failure(
    m: MachineView,
    n: crate::ast::BlockStatement,
    replies: Seq<Option<ValueView>>,
)
    requires
        forall|j: int| 0 <= j < m.frames.len() ==> !opens(#[trigger] m.frames[j]),
    ensures
        ({
            let entered = crate::semantics::visit_block_statement(m, n).0;
            let after = steps(entered, replies);
            &&& unwound(after.frames, after.environment) == m.environment
            &&& after.control is Failed ==> after.environment == m.environment
        }),
{
    let entered = crate::semantics::visit_block_statement(m, n).0;
    unwound_push(
        m.frames.push(FrameView::Scope(m.environment)),
        FrameView::Sequence(n.statements@, 0),
        entered.environment,
    );
    unwound_push(m.frames, FrameView::Scope(m.environment), entered.environment);
    unwound_is_outermost(m.frames, m.environment, m.frames.len() as int);
    steps_keep_unwound(entered, replies);
}

/// A program that fails ends in the globals: the environment in which it
/// was started.
pub proof fn failed_program_is_in_the_globals(
    program: Seq<Statement>,
    locals: Map<u64, usize>,
    replies: Seq<Option<ValueView>>,
)
    ensures
        steps(start(program, locals), replies).control is Failed ==> steps(
            start(program, locals),
            replies,
        ).environment == crate::environment::GLOBALS,
{
    let m = start(program, locals);
    unwound_is_outermost(m.frames, m.environment, 1);
    steps_keep_unwound(m, replies);
}

} // verus!
