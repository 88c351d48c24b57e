//! An initializer returns `this`, over the whole of a call.
//!
//! A call is a run of many steps. What `this` is bound to when a method is
//! bound must still be what it is bound to when the body is done, whatever
//! the body did in between. That holds of every tree that neither declares
//! nor assigns the name `this`. In the text of a program `this` is a word
//! of the language and no name: the scanner reads no identifier that is
//! spelled so ([`crate::scanner::tokenize`]), and from tokens without such
//! an identifier the parser makes only such trees
//! ([`crate::parser::Parser::parse`]). Of a tree that was made by hand,
//! [`statements_are_plain`] says whether it is such a tree.

use vstd::prelude::*;
use vstd::string::StringExecFns;
use crate::token::Token;
use crate::ast::{Expression, FunctionStatement, Statement};
use crate::value::ValueView;
use crate::environment;
use crate::environment::EnvironmentView;
use crate::heap;
use crate::heap::{ClassView, FunctionModel, HeapView, InstanceView};
use crate::machine::{ControlView, FrameView, MachineView};
use crate::error::RuntimeMessage;
use crate::semantics;
use crate::semantics::{
    activate, bind_parameters, call_class, call_value, fail, finish, frame_fits, methods_of,
    next_argument, pop, resume, step, steps,
};
use crate::progress::step_keeps_lower_frames;

verus! {

/// Whether an expression assigns to no name `this`.
pub open spec fn plain_expression(e: Expression) -> bool
    decreases e, 0int,
{
    match e {
        Expression::Literal(_) => true,
        Expression::Grouping(n) => plain_expression(*n.expression),
        Expression::Unary(n) => plain_expression(*n.expression),
        Expression::Binary(n) => plain_expression(*n.left) && plain_expression(*n.right),
        Expression::Logical(n) => plain_expression(*n.left) && plain_expression(*n.right),
        Expression::Variable(_) => true,
        Expression::Assignment(n) => n.name.token_value@ != "this"@ && plain_expression(*n.value),
        Expression::Call(n) => plain_expression(*n.callee) && plain_expressions(n.arguments@, 0),
        Expression::Get(n) => plain_expression(*n.expression),
        Expression::SetField(n) => plain_expression(*n.expression) && plain_expression(*n.value),
        Expression::This(_) => true,
        Expression::Super(_) => true,
    }
}

/// Whether the expressions of a list, from an index on, assign to no name
/// `this`.
pub open spec fn plain_expressions(list: Seq<Expression>, from: int) -> bool
    decreases list, list.len() - from,
{
    if from < 0 || from >= list.len() {
        true
    } else {
        plain_expression(list[from]) && plain_expressions(list, from + 1)
    }
}

/// Whether an optional expression assigns to no name `this`.
pub open spec fn plain_optional(e: Option<Expression>) -> bool
    decreases e, 1int,
{
    match e {
        Some(e) => plain_expression(e),
        None => true,
    }
}

/// Whether the body of a function neither declares nor assigns a name
/// `this`.
pub open spec fn plain_function(f: FunctionStatement) -> bool
    decreases f, 0int,
{
    plain_statements(f.body@, 0)
}

/// Whether the bodies of the functions of a list, from an index on, neither
/// declare nor assign a name `this`.
pub open spec fn plain_functions(list: Seq<FunctionStatement>, from: int) -> bool
    decreases list, list.len() - from,
{
    if from < 0 || from >= list.len() {
        true
    } else {
        plain_function(list[from]) && plain_functions(list, from + 1)
    }
}

/// Whether a statement neither declares nor assigns a name `this`.
pub open spec fn plain_statement(s: Statement) -> bool
    decreases s, 1int,
{
    match s {
        Statement::Expression(n) => plain_expression(n.expression),
        Statement::Print(n) => plain_expression(n.expression),
        Statement::Variable(n) => n.name.token_value@ != "this"@ && plain_optional(n.initializer),
        Statement::Block(n) => plain_statements(n.statements@, 0),
        Statement::If(n) => plain_expression(n.condition) && plain_statement(*n.then_statement)
            && match n.else_statement {
            Some(other) => plain_statement(*other),
            None => true,
        },
        Statement::While(n) => plain_expression(n.condition) && plain_statement(*n.body),
        Statement::Function(n) => n.name.token_value@ != "this"@ && plain_function(n),
        Statement::Return(n) => plain_optional(n.value),
        Statement::Class(n) => n.name.token_value@ != "this"@ && plain_functions(n.methods@, 0),
    }
}

/// Whether the statements of a list, from an index on, neither declare nor
/// assign a name `this`.
pub open spec fn plain_statements(list: Seq<Statement>, from: int) -> bool
    decreases list, list.len() - from,
{
    if from < 0 || from >= list.len() {
        true
    } else {
        plain_statement(list[from]) && plain_statements(list, from + 1)
    }
}

/// Whether the node that a frame holds neither declares nor assigns a name
/// `this`.
pub open spec fn plain_frame(frame: FrameView) -> bool {
    match frame {
        FrameView::Unary(n) => plain_expression(Expression::Unary(n)),
        FrameView::BinaryLeft(n) => plain_expression(Expression::Binary(n)),
        FrameView::BinaryRight(n, _) => plain_expression(Expression::Binary(n)),
        FrameView::Logical(n) => plain_expression(Expression::Logical(n)),
        FrameView::Assign(n) => plain_expression(Expression::Assignment(n)),
        FrameView::Callee(n) => plain_expression(Expression::Call(n)),
        FrameView::Argument(n, _, _) => plain_expression(Expression::Call(n)),
        FrameView::Get(n) => plain_expression(Expression::Get(n)),
        FrameView::SetObject(n) => plain_expression(Expression::SetField(n)),
        FrameView::SetValue(n, _) => plain_expression(Expression::SetField(n)),
        FrameView::Variable(n) => plain_statement(Statement::Variable(n)),
        FrameView::If(n) => plain_statement(Statement::If(n)),
        FrameView::WhileCondition(n) => plain_statement(Statement::While(n)),
        FrameView::WhileBody(n) => plain_statement(Statement::While(n)),
        FrameView::Sequence(statements, _) => plain_statements(statements, 0),
        _ => true,
    }
}

/// Whether what a control holds neither declares nor assigns a name `this`.
pub open spec fn plain_control(control: ControlView) -> bool {
    match control {
        ControlView::Evaluate(e) => plain_expression(e),
        ControlView::Execute(s) => plain_statement(s),
        _ => true,
    }
}

/// Whether a method is as a class keeps it: its body neither declares nor
/// assigns a name `this`, and it is an initializer exactly if it is kept
/// under the name `init`.
pub open spec fn kept(name: Seq<char>, method: FunctionModel) -> bool {
    plain_function(method.declaration) && (method.is_initializer <==> name == "init"@)
}

/// Whether the functions and the methods of a heap neither declare nor
/// assign a name `this`, and the initializers are the methods `init`.
pub open spec fn plain_heap(h: HeapView) -> bool {
    &&& forall|f: int|
        0 <= f < h.functions.len() ==> plain_function((#[trigger] h.functions[f]).declaration)
    &&& forall|c: int, k: Seq<char>|
        0 <= c < h.classes.len() && (#[trigger] h.classes[c].methods.contains_key(k)) ==> kept(
            k,
            h.classes[c].methods[k],
        )
}

/// Whether the current environment and those that the frames go back to
/// exist.
pub open spec fn grounded(m: MachineView) -> bool {
    &&& m.environment < m.heap.environments.len()
    &&& forall|i: int| 0 <= i < m.frames.len() ==> frame_fits(#[trigger] m.frames[i], m.heap)
}

/// Whether nothing that a machine holds declares or assigns a name `this`:
/// not its control, not its frames, not the functions and methods of its
/// heap.
pub open spec fn plain(m: MachineView) -> bool {
    &&& grounded(m)
    &&& plain_heap(m.heap)
    &&& plain_control(m.control)
    &&& forall|i: int| 0 <= i < m.frames.len() ==> plain_frame(#[trigger] m.frames[i])
}

/// Whether environments still bind `this` as others did: every environment
/// of the others is still there, and what it bound `this` to it still
/// does.
pub open spec fn keeps_this(before: Seq<EnvironmentView>, after: Seq<EnvironmentView>) -> bool {
    &&& after.len() >= before.len()
    &&& forall|e: int|
        0 <= e < before.len() && (#[trigger] before[e]).values.contains_key("this"@)
            ==> after[e].values.contains_key("this"@) && after[e].values["this"@]
            == before[e].values["this"@]
}

/// Whether instances still have the fields that others had: every instance
/// of the others is still there, of the same class, and has every field
/// that it had.
pub open spec fn keeps_fields(before: Seq<InstanceView>, after: Seq<InstanceView>) -> bool {
    &&& after.len() >= before.len()
    &&& forall|i: int|
        0 <= i < before.len() ==> (#[trigger] after[i]).klass == before[i].klass && forall|
            name: Seq<char>,
        | #[trigger]
            before[i].fields.contains_key(name) ==> after[i].fields.contains_key(name)
}

/// Whether a machine came from another by steps that kept it plain, kept
/// what is bound to `this`, and kept the fields of the instances.
pub open spec fn carried_on(before: MachineView, after: MachineView) -> bool {
    &&& plain(after)
    &&& keeps_this(before.heap.environments, after.heap.environments)
    &&& keeps_fields(before.heap.instances, after.heap.instances)
}

/// The expression at an index of a plain list is plain.
pub proof fn plain_expressions_at(list: Seq<Expression>, from: int, i: int)
    requires
        plain_expressions(list, from),
        0 <= from <= i < list.len(),
    ensures
        plain_expression(list[i]),
    decreases i - from,
{
    if from < i {
        plain_expressions_at(list, from + 1, i);
    }
}

/// A plain list with one more plain expression behind it is plain.
pub proof fn plain_expressions_push(list: Seq<Expression>, e: Expression, from: int)
    requires
        0 <= from <= list.len(),
        plain_expressions(list, from),
        plain_expression(e),
    ensures
        plain_expressions(list.push(e), from),
    decreases list.len() - from,
{
    let longer = list.push(e);
    if from < list.len() {
        plain_expressions_push(list, e, from + 1);
        assert(longer[from] == list[from]);
    } else {
        assert(longer[from] == e);
        assert(plain_expressions(longer, from + 1));
    }
}

/// A plain list with one more plain statement behind it is plain.
pub proof fn plain_statements_push(list: Seq<Statement>, s: Statement, from: int)
    requires
        0 <= from <= list.len(),
        plain_statements(list, from),
        plain_statement(s),
    ensures
        plain_statements(list.push(s), from),
    decreases list.len() - from,
{
    let longer = list.push(s);
    if from < list.len() {
        plain_statements_push(list, s, from + 1);
        assert(longer[from] == list[from]);
    } else {
        assert(longer[from] == s);
        assert(plain_statements(longer, from + 1));
    }
}

/// A plain list with one more plain function behind it is plain.
pub proof fn plain_functions_push(list: Seq<FunctionStatement>, f: FunctionStatement, from: int)
    requires
        0 <= from <= list.len(),
        plain_functions(list, from),
        plain_function(f),
    ensures
        plain_functions(list.push(f), from),
    decreases list.len() - from,
{
    let longer = list.push(f);
    if from < list.len() {
        plain_functions_push(list, f, from + 1);
        assert(longer[from] == list[from]);
    } else {
        assert(longer[from] == f);
        assert(plain_functions(longer, from + 1));
    }
}

/// The statement at an index of a plain list is plain.
pub proof fn plain_statements_at(list: Seq<Statement>, from: int, i: int)
    requires
        plain_statements(list, from),
        0 <= from <= i < list.len(),
    ensures
        plain_statement(list[i]),
    decreases i - from,
{
    if from < i {
        plain_statements_at(list, from + 1, i);
    }
}

/// The function at an index of a plain list is plain.
pub proof fn plain_functions_at(list: Seq<FunctionStatement>, from: int, i: int)
    requires
        plain_functions(list, from),
        0 <= from <= i < list.len(),
    ensures
        plain_function(list[i]),
    decreases i - from,
{
    if from < i {
        plain_functions_at(list, from + 1, i);
    }
}

/// The methods that a class is made with are as a class keeps them.
pub proof fn methods_of_are_kept(declarations: Seq<FunctionStatement>, closure: usize, count: int)
    requires
        plain_functions(declarations, 0),
    ensures
        forall|k: Seq<char>| #[trigger]
            methods_of(declarations, closure, count).contains_key(k) ==> kept(
                k,
                methods_of(declarations, closure, count)[k],
            ),
    decreases count,
{
    if !(count <= 0 || count > declarations.len()) {
        methods_of_are_kept(declarations, closure, count - 1);
        plain_functions_at(declarations, 0, count - 1);
        let earlier = methods_of(declarations, closure, count - 1);
        let all = methods_of(declarations, closure, count);
        let name = declarations[count - 1].name.token_value@;
        assert forall|k: Seq<char>| #[trigger] all.contains_key(k) implies kept(k, all[k]) by {
            if k != name {
                assert(earlier.contains_key(k));
                assert(all[k] == earlier[k]);
            }
        }
    }
}

/// The method that is found in a plain heap is as a class keeps it.
pub proof fn found_method_is_kept(h: HeapView, class: int, name: Seq<char>)
    requires
        plain_heap(h),
    ensures
        match heap::find_method(h.classes, class, name) {
            Some(method) => kept(name, method),
            None => true,
        },
    decreases class,
{
    if 0 <= class < h.classes.len() && !h.classes[class].methods.contains_key(name) {
        match h.classes[class].superclass {
            Some(parent) => {
                if parent < class {
                    found_method_is_kept(h, parent as int, name);
                }
            },
            None => {},
        }
    }
}

/// Binding another name than `this` keeps what is bound to `this`.
pub proof fn define_keeps_this(
    environments: Seq<EnvironmentView>,
    at: int,
    name: Seq<char>,
    value: ValueView,
)
    requires
        0 <= at < environments.len(),
        name != "this"@,
    ensures
        keeps_this(environments, environment::define(environments, at, name, value)),
{
}

/// Binding a name in a new environment keeps what the others bind to
/// `this`.
pub proof fn define_beside_keeps_this(
    before: Seq<EnvironmentView>,
    environments: Seq<EnvironmentView>,
    at: int,
    name: Seq<char>,
    value: ValueView,
)
    requires
        keeps_this(before, environments),
        before.len() <= at < environments.len(),
    ensures
        keeps_this(before, environment::define(environments, at, name, value)),
        environment::define(environments, at, name, value).len() == environments.len(),
{
    let after = environment::define(environments, at, name, value);
    assert forall|e: int|
        0 <= e < before.len() && (#[trigger] before[e]).values.contains_key(
            "this"@,
        ) implies after[e].values.contains_key("this"@) && after[e].values["this"@]
        == before[e].values["this"@] by {
        assert(after[e] == environments[e]);
    }
}

/// Binding parameters in a new environment keeps what the others bind to
/// `this`.
pub proof fn parameters_keep_this(
    before: Seq<EnvironmentView>,
    environments: Seq<EnvironmentView>,
    at: int,
    parameters: Seq<Token>,
    arguments: Seq<ValueView>,
    from: int,
)
    requires
        keeps_this(before, environments),
        before.len() <= at < environments.len(),
    ensures
        keeps_this(before, bind_parameters(environments, at, parameters, arguments, from)),
        bind_parameters(environments, at, parameters, arguments, from).len()
            == environments.len(),
    decreases parameters.len() - from,
{
    if !(from < 0 || from >= parameters.len() || from >= arguments.len()) {
        define_beside_keeps_this(
            before,
            environments,
            at,
            parameters[from].token_value@,
            arguments[from],
        );
        parameters_keep_this(
            before,
            environment::define(environments, at, parameters[from].token_value@, arguments[from]),
            at,
            parameters,
            arguments,
            from + 1,
        );
    }
}

/// A machine stays plain with a plain frame on top.
pub proof fn push_is_plain(m: MachineView, frame: FrameView, control: ControlView)
    requires
        plain(m),
        plain_frame(frame),
        frame_fits(frame, m.heap),
        plain_control(control),
    ensures
        carried_on(m, semantics::push(m, frame, control).0),
{
    let after = semantics::push(m, frame, control).0;
    assert forall|i: int| 0 <= i < after.frames.len() implies plain_frame(
        #[trigger] after.frames[i],
    ) && frame_fits(after.frames[i], after.heap) by {
        if i < m.frames.len() {
            assert(after.frames[i] == m.frames[i]);
        }
    }
}

/// A machine stays plain without its top frame.
pub proof fn pop_is_plain(m: MachineView)
    requires
        plain(m),
        m.frames.len() > 0,
    ensures
        plain(pop(m)),
        plain_frame(m.frames.last()),
        frame_fits(m.frames.last(), m.heap),
{
    let rest = pop(m);
    assert forall|i: int| 0 <= i < rest.frames.len() implies plain_frame(
        #[trigger] rest.frames[i],
    ) && frame_fits(rest.frames[i], rest.heap) by {
        assert(rest.frames[i] == m.frames[i]);
    }
    assert(m.frames.last() == m.frames[m.frames.len() - 1]);
}

/// A machine stays plain when it fails.
pub proof fn fail_is_plain(m: MachineView, message: RuntimeMessage, token: Token)
    requires
        plain(m),
    ensures
        carried_on(m, fail(m, message, token).0),
{
    semantics::unwound_exists(m.frames, m.environment, m.heap);
}

/// A machine stays plain with another heap that is plain and has all its
/// environments.
pub proof fn heap_is_plain(m: MachineView, h: HeapView, control: ControlView)
    requires
        plain(m),
        plain_heap(h),
        h.environments.len() >= m.heap.environments.len(),
        plain_control(control),
    ensures
        plain(MachineView { heap: h, control, ..m }),
{
    let after = MachineView { heap: h, control, ..m };
    assert forall|i: int| 0 <= i < after.frames.len() implies frame_fits(
        #[trigger] after.frames[i],
        after.heap,
    ) by {
        assert(frame_fits(m.frames[i], m.heap));
    }
}


/// What is kept over one stretch and over the next is kept over both.
pub proof fn carried_on_twice(first: MachineView, second: MachineView, third: MachineView)
    requires
        keeps_this(first.heap.environments, second.heap.environments),
        keeps_fields(first.heap.instances, second.heap.instances),
        carried_on(second, third),
    ensures
        carried_on(first, third),
{
    let a = first.heap.environments;
    let b = second.heap.environments;
    let c = third.heap.environments;
    assert forall|e: int|
        0 <= e < a.len() && (#[trigger] a[e]).values.contains_key(
            "this"@,
        ) implies c[e].values.contains_key("this"@) && c[e].values["this"@] == a[e].values["this"@] by {
        assert(b[e].values.contains_key("this"@));
    }
    let x = first.heap.instances;
    let y = second.heap.instances;
    let z = third.heap.instances;
    assert forall|i: int| 0 <= i < x.len() implies (#[trigger] z[i]).klass == x[i].klass && forall|
        name: Seq<char>,
    | #[trigger]
        x[i].fields.contains_key(name) ==> z[i].fields.contains_key(name) by {
        assert(y[i].klass == x[i].klass);
        assert forall|name: Seq<char>| #[trigger]
            x[i].fields.contains_key(name) implies z[i].fields.contains_key(name) by {
            assert(y[i].fields.contains_key(name));
        }
    }
}

/// A machine stays plain with another control that is plain.
proof fn control_is_plain(m: MachineView, control: ControlView)
    requires
        plain(m),
        plain_control(control),
    ensures
        carried_on(m, MachineView { control, ..m }),
{
}

/// A machine stays plain with other environments that keep what is bound
/// to `this`.
proof fn environments_are_plain(
    m: MachineView,
    environments: Seq<EnvironmentView>,
    control: ControlView,
)
    requires
        plain(m),
        keeps_this(m.heap.environments, environments),
        plain_control(control),
    ensures
        carried_on(
            m,
            MachineView { heap: HeapView { environments, ..m.heap }, control, ..m },
        ),
{
    heap_is_plain(m, HeapView { environments, ..m.heap }, control);
}

/// Binding a method to an instance, as one more function, keeps a heap
/// plain and keeps what is bound to `this`.
proof fn bound_method_is_plain(m: MachineView, method: FunctionModel, instance: usize)
    requires
        plain(m),
        plain_function(method.declaration),
    ensures
        carried_on(
            m,
            MachineView {
                heap: semantics::bound_method(m.heap, method, instance).0,
                control: ControlView::Value(semantics::bound_method(m.heap, method, instance).1),
                ..m
            },
        ),
{
    let h = semantics::bound_method(m.heap, method, instance).0;
    let before = m.heap.environments;
    define_beside_keeps_this(
        before,
        environment::extend(before, Some(method.closure)),
        before.len() as int,
        "this"@,
        ValueView::Instance(instance),
    );
    assert forall|f: int| 0 <= f < h.functions.len() implies plain_function(
        (#[trigger] h.functions[f]).declaration,
    ) by {
        if f < m.heap.functions.len() {
            assert(h.functions[f] == m.heap.functions[f]);
        }
    }
    heap_is_plain(m, h, ControlView::Value(semantics::bound_method(m.heap, method, instance).1));
}

/// Entering a plain function keeps a machine plain.
proof fn activate_is_plain(m: MachineView, function: FunctionModel, arguments: Seq<ValueView>)
    requires
        plain(m),
        plain_function(function.declaration),
    ensures
        carried_on(m, activate(m, function, arguments).0),
{
    let after = activate(m, function, arguments).0;
    let before = m.heap.environments;
    parameters_keep_this(
        before,
        environment::extend(before, Some(function.closure)),
        before.len() as int,
        function.declaration.parameters@,
        arguments,
        0,
    );
    assert forall|i: int| 0 <= i < after.frames.len() implies plain_frame(
        #[trigger] after.frames[i],
    ) && frame_fits(after.frames[i], after.heap) by {
        if i < m.frames.len() {
            assert(after.frames[i] == m.frames[i]);
            assert(frame_fits(m.frames[i], m.heap));
        }
    }
}

/// The call of a class keeps a machine plain.
proof fn class_is_plain(m: MachineView, paren: Token, class: usize, arguments: Seq<ValueView>)
    requires
        plain(m),
    ensures
        carried_on(m, call_class(m, paren, class, arguments).0),
{
    let initializer = heap::find_method(m.heap.classes, class as int, "init"@);
    let expected = match initializer {
        Some(f) => f.declaration.parameters@.len(),
        None => 0,
    };
    found_method_is_kept(m.heap, class as int, "init"@);
    if arguments.len() != expected {
        fail_is_plain(
            m,
            RuntimeMessage::WrongArity {
                expected: expected as usize,
                got: arguments.len() as usize,
            },
            paren,
        );
    } else {
        let instance = m.heap.instances.len() as usize;
        let made = MachineView {
            heap: HeapView {
                instances: m.heap.instances.push(
                    InstanceView { klass: class, fields: Map::empty() },
                ),
                ..m.heap
            },
            ..m
        };
        heap_is_plain(m, made.heap, m.control);
        assert(keeps_fields(m.heap.instances, made.heap.instances));
        match initializer {
            Some(f) => {
                let (environments, bound) = heap::bind(made.heap.environments, f, instance);
                let before = m.heap.environments;
                define_beside_keeps_this(
                    before,
                    environment::extend(before, Some(f.closure)),
                    before.len() as int,
                    "this"@,
                    ValueView::Instance(instance),
                );
                let bound_heap = HeapView { environments, ..made.heap };
                heap_is_plain(made, bound_heap, m.control);
                let held = MachineView { heap: bound_heap, ..made };
                push_is_plain(held, FrameView::Construct(instance), m.control);
                let waiting = MachineView {
                    frames: made.frames.push(FrameView::Construct(instance)),
                    heap: bound_heap,
                    ..made
                };
                assert(waiting == semantics::push(
                    held,
                    FrameView::Construct(instance),
                    m.control,
                ).0);
                activate_is_plain(waiting, bound, arguments);
                carried_on_twice(m, waiting, activate(waiting, bound, arguments).0);
            },
            None => {
                control_is_plain(made, ControlView::Value(ValueView::Instance(instance)));
                carried_on_twice(
                    m,
                    made,
                    semantics::produce(made, ValueView::Instance(instance)).0,
                );
            },
        }
    }
}

/// A call keeps a machine plain.
proof fn call_is_plain(m: MachineView, paren: Token, callee: ValueView, arguments: Seq<ValueView>)
    requires
        plain(m),
    ensures
        carried_on(m, call_value(m, paren, callee, arguments).0),
{
    fail_is_plain(m, RuntimeMessage::CanOnlyCallFunctionsAndClasses, paren);
    match callee {
        ValueView::Function(f) => {
            if f < m.heap.functions.len() {
                let function = m.heap.functions[f as int];
                let expected = function.declaration.parameters@.len();
                if arguments.len() != expected {
                    fail_is_plain(
                        m,
                        RuntimeMessage::WrongArity {
                            expected: expected as usize,
                            got: arguments.len() as usize,
                        },
                        paren,
                    );
                } else {
                    activate_is_plain(m, function, arguments);
                }
            }
        },
        ValueView::LoxClass(c) => {
            if c < m.heap.classes.len() {
                class_is_plain(m, paren, c, arguments);
            }
        },
        ValueView::Clock => {
            if arguments.len() == 0 {
                control_is_plain(m, ControlView::Awaiting(crate::machine::RequestView::Clock));
            } else {
                fail_is_plain(
                    m,
                    RuntimeMessage::WrongArity { expected: 0, got: arguments.len() as usize },
                    paren,
                );
            }
        },
        _ => {},
    }
}

/// The next argument, or the call, keeps a machine plain.
proof fn argument_is_plain(
    m: MachineView,
    n: crate::ast::CallExpression,
    callee: ValueView,
    arguments: Seq<ValueView>,
)
    requires
        plain(m),
        plain_expression(Expression::Call(n)),
    ensures
        carried_on(m, next_argument(m, n, callee, arguments).0),
{
    if arguments.len() < n.arguments@.len() {
        plain_expressions_at(n.arguments@, 0, arguments.len() as int);
        push_is_plain(
            m,
            FrameView::Argument(n, callee, arguments),
            ControlView::Evaluate(n.arguments@[arguments.len() as int]),
        );
    } else {
        call_is_plain(m, n.paren, callee, arguments);
    }
}


/// A read of a name keeps a machine plain.
proof fn variable_is_plain(m: MachineView, id: u64, name: Token)
    requires
        plain(m),
    ensures
        carried_on(m, semantics::visit_variable_expression(m, id, name).0),
{
    fail_is_plain(m, RuntimeMessage::UndefinedVariable, name);
    match semantics::look_up_variable(m, id, name) {
        Some(value) => {
            control_is_plain(m, ControlView::Value(value));
        },
        None => {},
    }
}

/// Beginning to evaluate an expression keeps a machine plain.
proof fn evaluate_is_plain(m: MachineView, e: Expression)
    requires
        plain(m),
        plain_expression(e),
    ensures
        carried_on(m, semantics::evaluate(m, e).0),
{
    match e {
        Expression::Literal(n) => {
            match n.value@ {
                ValueView::Number(numeral) => {
                    control_is_plain(
                        m,
                        ControlView::Awaiting(crate::machine::RequestView::Numeral(numeral)),
                    );
                },
                _ => {
                    control_is_plain(m, ControlView::Value(n.value@));
                },
            }
        },
        Expression::Grouping(n) => {
            control_is_plain(m, ControlView::Evaluate(*n.expression));
        },
        Expression::Unary(n) => {
            push_is_plain(m, FrameView::Unary(n), ControlView::Evaluate(*n.expression));
        },
        Expression::Binary(n) => {
            push_is_plain(m, FrameView::BinaryLeft(n), ControlView::Evaluate(*n.left));
        },
        Expression::Logical(n) => {
            push_is_plain(m, FrameView::Logical(n), ControlView::Evaluate(*n.left));
        },
        Expression::Variable(n) => {
            variable_is_plain(m, n.id, n.variable);
        },
        Expression::Assignment(n) => {
            push_is_plain(m, FrameView::Assign(n), ControlView::Evaluate(*n.value));
        },
        Expression::Call(n) => {
            push_is_plain(m, FrameView::Callee(n), ControlView::Evaluate(*n.callee));
        },
        Expression::Get(n) => {
            push_is_plain(m, FrameView::Get(n), ControlView::Evaluate(*n.expression));
        },
        Expression::SetField(n) => {
            push_is_plain(m, FrameView::SetObject(n), ControlView::Evaluate(*n.expression));
        },
        Expression::This(n) => {
            variable_is_plain(m, n.id, n.value);
        },
        Expression::Super(n) => {
            fail_is_plain(m, RuntimeMessage::UndefinedVariable, n.keyword);
            fail_is_plain(m, RuntimeMessage::UndefinedProperty, n.method);
            if m.locals.contains_key(n.id) && m.locals[n.id] != 0 {
                let depth = m.locals[n.id] as nat;
                let environments = m.heap.environments;
                match (
                    environment::get_at(environments, m.environment as int, depth, "super"@),
                    environment::get_at(
                        environments,
                        m.environment as int,
                        (depth - 1) as nat,
                        "this"@,
                    ),
                ) {
                    (Some(ValueView::LoxClass(class)), Some(ValueView::Instance(instance))) => {
                        found_method_is_kept(m.heap, class as int, n.method.token_value@);
                        match heap::find_method(
                            m.heap.classes,
                            class as int,
                            n.method.token_value@,
                        ) {
                            Some(method) => {
                                bound_method_is_plain(m, method, instance);
                            },
                            None => {},
                        }
                    },
                    _ => {},
                }
            }
        },
    }
}

/// A variable declaration keeps a machine plain.
proof fn declaration_is_plain(m: MachineView, n: crate::ast::VariableStatement, value: ValueView)
    requires
        plain(m),
        n.name.token_value@ != "this"@,
    ensures
        carried_on(m, semantics::visit_variable_statement(m, n, value).0),
{
    define_keeps_this(m.heap.environments, m.environment as int, n.name.token_value@, value);
    environments_are_plain(
        m,
        environment::define(
            m.heap.environments,
            m.environment as int,
            n.name.token_value@,
            value,
        ),
        ControlView::Completed(None),
    );
}

/// Making a class keeps a machine plain.
proof fn class_statement_is_plain(
    m: MachineView,
    n: crate::ast::ClassStatement,
    superclass: Option<usize>,
)
    requires
        plain(m),
        plain_statement(Statement::Class(n)),
    ensures
        carried_on(m, semantics::make_class(m, n, superclass).0),
{
    reveal_strlit("super");
    reveal_strlit("this");
    let before = m.heap.environments;
    let (environments, closure) = match superclass {
        Some(parent) => (
            environment::define(
                environment::extend(before, Some(m.environment)),
                before.len() as int,
                "super"@,
                ValueView::LoxClass(parent),
            ),
            before.len() as usize,
        ),
        None => (before, m.environment),
    };
    match superclass {
        Some(parent) => {
            define_beside_keeps_this(
                before,
                environment::extend(before, Some(m.environment)),
                before.len() as int,
                "super"@,
                ValueView::LoxClass(parent),
            );
        },
        None => {},
    }
    let named = environment::define(
        environments,
        m.environment as int,
        n.name.token_value@,
        ValueView::LoxClass(m.heap.classes.len() as usize),
    );
    define_keeps_this(
        environments,
        m.environment as int,
        n.name.token_value@,
        ValueView::LoxClass(m.heap.classes.len() as usize),
    );
    assert(keeps_this(before, named)) by {
        assert forall|e: int|
            0 <= e < before.len() && (#[trigger] before[e]).values.contains_key(
                "this"@,
            ) implies named[e].values.contains_key("this"@) && named[e].values["this"@]
            == before[e].values["this"@] by {
            assert(environments[e].values.contains_key("this"@));
        }
    }
    let methods = methods_of(n.methods@, closure, n.methods@.len() as int);
    methods_of_are_kept(n.methods@, closure, n.methods@.len() as int);
    let class = ClassView { name: n.name.token_value@, methods, superclass };
    let h = HeapView { environments: named, classes: m.heap.classes.push(class), ..m.heap };
    assert forall|c: int, k: Seq<char>|
        0 <= c < h.classes.len() && (#[trigger] h.classes[c].methods.contains_key(
            k,
        )) implies kept(k, h.classes[c].methods[k]) by {
        if c < m.heap.classes.len() {
            assert(h.classes[c] == m.heap.classes[c]);
        }
    }
    heap_is_plain(m, h, ControlView::Completed(None));
}

/// Beginning to execute a statement keeps a machine plain.
proof fn execute_is_plain(m: MachineView, s: Statement)
    requires
        plain(m),
        plain_statement(s),
    ensures
        carried_on(m, semantics::execute(m, s).0),
{
    match s {
        Statement::Expression(n) => {
            push_is_plain(m, FrameView::Expression, ControlView::Evaluate(n.expression));
        },
        Statement::Print(n) => {
            push_is_plain(m, FrameView::Print, ControlView::Evaluate(n.expression));
        },
        Statement::Variable(n) => {
            match n.initializer {
                Some(e) => {
                    push_is_plain(m, FrameView::Variable(n), ControlView::Evaluate(e));
                },
                None => {
                    declaration_is_plain(m, n, ValueView::Nil);
                },
            }
        },
        Statement::Block(n) => {
            let after = semantics::visit_block_statement(m, n).0;
            assert forall|i: int| 0 <= i < after.frames.len() implies plain_frame(
                #[trigger] after.frames[i],
            ) && frame_fits(after.frames[i], after.heap) by {
                if i < m.frames.len() {
                    assert(after.frames[i] == m.frames[i]);
                    assert(frame_fits(m.frames[i], m.heap));
                }
            }
        },
        Statement::If(n) => {
            push_is_plain(m, FrameView::If(n), ControlView::Evaluate(n.condition));
        },
        Statement::While(n) => {
            push_is_plain(m, FrameView::WhileCondition(n), ControlView::Evaluate(n.condition));
        },
        Statement::Function(n) => {
            let function = FunctionModel {
                declaration: n,
                closure: m.environment,
                is_initializer: false,
            };
            let value = ValueView::Function(m.heap.functions.len() as usize);
            define_keeps_this(m.heap.environments, m.environment as int, n.name.token_value@, value);
            let h = HeapView {
                environments: environment::define(
                    m.heap.environments,
                    m.environment as int,
                    n.name.token_value@,
                    value,
                ),
                functions: m.heap.functions.push(function),
                ..m.heap
            };
            assert forall|f: int| 0 <= f < h.functions.len() implies plain_function(
                (#[trigger] h.functions[f]).declaration,
            ) by {
                if f < m.heap.functions.len() {
                    assert(h.functions[f] == m.heap.functions[f]);
                }
            }
            heap_is_plain(m, h, ControlView::Completed(None));
        },
        Statement::Return(n) => {
            match n.value {
                Some(e) => {
                    push_is_plain(m, FrameView::Return, ControlView::Evaluate(e));
                },
                None => {
                    control_is_plain(m, ControlView::Completed(Some(ValueView::Nil)));
                },
            }
        },
        Statement::Class(n) => {
            define_keeps_this(
                m.heap.environments,
                m.environment as int,
                n.name.token_value@,
                ValueView::Nil,
            );
            let declared = semantics::with_environments(
                m,
                environment::define(
                    m.heap.environments,
                    m.environment as int,
                    n.name.token_value@,
                    ValueView::Nil,
                ),
            );
            environments_are_plain(m, declared.heap.environments, m.control);
            assert(declared == MachineView {
                heap: HeapView { environments: declared.heap.environments, ..m.heap },
                control: m.control,
                ..m
            });
            match n.super_class {
                Some(v) => {
                    fail_is_plain(declared, RuntimeMessage::SuperclassMustBeAClass, v.variable);
                    fail_is_plain(declared, RuntimeMessage::UndefinedVariable, v.variable);
                    match semantics::look_up_variable(declared, v.id, v.variable) {
                        Some(ValueView::LoxClass(parent)) => {
                            class_statement_is_plain(declared, n, Some(parent));
                        },
                        _ => {},
                    }
                },
                None => {
                    class_statement_is_plain(declared, n, None);
                },
            }
            carried_on_twice(m, declared, semantics::visit_class_statement(m, n).0);
        },
    }
}

/// An assignment keeps a machine plain.
proof fn assignment_is_plain(
    m: MachineView,
    n: crate::ast::AssignmentExpression,
    value: ValueView,
)
    requires
        plain(m),
        n.name.token_value@ != "this"@,
    ensures
        carried_on(m, semantics::visit_assignment_expression(m, n, value).0),
{
    fail_is_plain(m, RuntimeMessage::UndefinedVariable, n.name);
    let environments = m.heap.environments;
    let name = n.name.token_value@;
    let stored = if m.locals.contains_key(n.id) {
        environment::assign_at(
            environments,
            m.environment as int,
            m.locals[n.id] as nat,
            name,
            value,
        )
    } else {
        environment::assign(environments, environment::GLOBALS as int, name, value)
    };
    match stored {
        Some(after) => {
            if m.locals.contains_key(n.id) {
                environment::ancestor_in_range(
                    environments,
                    m.environment as int,
                    m.locals[n.id] as nat,
                );
                let at = environment::ancestor(
                    environments,
                    m.environment as int,
                    m.locals[n.id] as nat,
                )->0;
                define_keeps_this(environments, at, name, value);
            } else {
                environment::holder_in_range(environments, environment::GLOBALS as int, name);
                let at = environment::holder(environments, environment::GLOBALS as int, name)->0;
                define_keeps_this(environments, at, name, value);
            }
            environments_are_plain(m, after, ControlView::Value(value));
        },
        None => {},
    }
}

/// A read of a property keeps a machine plain.
proof fn property_is_plain(m: MachineView, n: crate::ast::GetExpression, object: ValueView)
    requires
        plain(m),
    ensures
        carried_on(m, semantics::visit_get_expression(m, n, object).0),
{
    fail_is_plain(m, RuntimeMessage::OnlyInstancesHaveProperties, n.name);
    fail_is_plain(m, RuntimeMessage::UndefinedProperty, n.name);
    match object {
        ValueView::Instance(i) => {
            if i < m.heap.instances.len() {
                let name = n.name.token_value@;
                if m.heap.instances[i as int].fields.contains_key(name) {
                    control_is_plain(
                        m,
                        ControlView::Value(m.heap.instances[i as int].fields[name]),
                    );
                } else {
                    let class = m.heap.instances[i as int].klass as int;
                    found_method_is_kept(m.heap, class, name);
                    match heap::find_method(m.heap.classes, class, name) {
                        Some(method) => {
                            bound_method_is_plain(m, method, i);
                        },
                        None => {},
                    }
                }
            }
        },
        _ => {},
    }
}

/// A write to a property keeps a machine plain, and the instance keeps its
/// fields and has the one that was written.
proof fn write_is_plain(
    m: MachineView,
    n: crate::ast::SetExpression,
    instance: usize,
    value: ValueView,
)
    requires
        plain(m),
    ensures
        carried_on(m, semantics::visit_set_expression(m, n, instance, value).0),
{
    fail_is_plain(m, RuntimeMessage::OnlyInstancesHaveProperties, n.name);
    if instance < m.heap.instances.len() {
        let h = heap::write_field(m.heap, instance as int, n.name.token_value@, value);
        heap_is_plain(m, h, ControlView::Value(value));
        assert forall|i: int| 0 <= i < m.heap.instances.len() implies (
        #[trigger] h.instances[i]).klass == m.heap.instances[i].klass && forall|name: Seq<char>|
         #[trigger]
            m.heap.instances[i].fields.contains_key(name) ==> h.instances[i].fields.contains_key(
                name,
            ) by {
            if i != instance {
                assert(h.instances[i] == m.heap.instances[i]);
            }
        }
    }
}

/// A value that reaches the frame on top keeps a machine plain.
proof fn resume_is_plain(m: MachineView, value: ValueView)
    requires
        plain(m),
    ensures
        carried_on(m, resume(m, value).0),
{
    control_is_plain(m, ControlView::Finished);
    if m.frames.len() > 0 {
        pop_is_plain(m);
        let rest = pop(m);
        match m.frames.last() {
            FrameView::Unary(n) => {
                fail_is_plain(rest, RuntimeMessage::OperandMustBeANumber, n.operator);
                fail_is_plain(rest, RuntimeMessage::UnknownOperator, n.operator);
                control_is_plain(
                    rest,
                    ControlView::Value(ValueView::Boolean(!crate::value::truthy(value))),
                );
                match value {
                    ValueView::Number(a) => {
                        control_is_plain(
                            rest,
                            ControlView::Awaiting(crate::machine::RequestView::Negate(a)),
                        );
                    },
                    _ => {},
                }
            },
            FrameView::BinaryLeft(n) => {
                push_is_plain(
                    rest,
                    FrameView::BinaryRight(n, value),
                    ControlView::Evaluate(*n.right),
                );
            },
            FrameView::BinaryRight(n, left) => {
                let after = semantics::visit_binary_expression(rest, n, left, value).0;
                fail_is_plain(rest, RuntimeMessage::OperandsMustBeNumbers, n.operator);
                fail_is_plain(
                    rest,
                    RuntimeMessage::OperandsMustBeTwoNumbersOrTwoStrings,
                    n.operator,
                );
                fail_is_plain(rest, RuntimeMessage::UnknownOperator, n.operator);
                if !(after.control is Failed) {
                    control_is_plain(rest, after.control);
                    assert(after == MachineView { control: after.control, ..rest });
                }
            },
            FrameView::Logical(n) => {
                control_is_plain(rest, ControlView::Value(value));
                control_is_plain(rest, ControlView::Evaluate(*n.right));
            },
            FrameView::Assign(n) => {
                assignment_is_plain(rest, n, value);
            },
            FrameView::Callee(n) => {
                argument_is_plain(rest, n, value, Seq::empty());
            },
            FrameView::Argument(n, callee, arguments) => {
                argument_is_plain(rest, n, callee, arguments.push(value));
            },
            FrameView::Get(n) => {
                property_is_plain(rest, n, value);
            },
            FrameView::SetObject(n) => {
                fail_is_plain(rest, RuntimeMessage::OnlyInstancesHaveProperties, n.name);
                match value {
                    ValueView::Instance(i) => {
                        push_is_plain(
                            rest,
                            FrameView::SetValue(n, i),
                            ControlView::Evaluate(*n.value),
                        );
                    },
                    _ => {},
                }
            },
            FrameView::SetValue(n, instance) => {
                write_is_plain(rest, n, instance, value);
            },
            FrameView::Expression => {
                control_is_plain(rest, ControlView::Completed(None));
            },
            FrameView::Print => {
                control_is_plain(rest, ControlView::Completed(None));
            },
            FrameView::Variable(n) => {
                declaration_is_plain(rest, n, value);
            },
            FrameView::Return => {
                control_is_plain(rest, ControlView::Completed(Some(value)));
            },
            FrameView::If(n) => {
                control_is_plain(rest, ControlView::Execute(*n.then_statement));
                control_is_plain(rest, ControlView::Completed(None));
                match n.else_statement {
                    Some(other) => {
                        control_is_plain(rest, ControlView::Execute(*other));
                    },
                    None => {},
                }
            },
            FrameView::WhileCondition(n) => {
                control_is_plain(rest, ControlView::Completed(None));
                push_is_plain(rest, FrameView::WhileBody(n), ControlView::Execute(*n.body));
            },
            FrameView::Construct(instance) => {
                control_is_plain(rest, ControlView::Value(ValueView::Instance(instance)));
            },
            _ => {},
        }
    }
}

/// The completion of a statement that reaches the frame on top keeps a
/// machine plain.
proof fn finish_is_plain(m: MachineView, carried: Option<ValueView>)
    requires
        plain(m),
    ensures
        carried_on(m, finish(m, carried).0),
{
    control_is_plain(m, ControlView::Finished);
    if m.frames.len() > 0 {
        pop_is_plain(m);
        let rest = pop(m);
        control_is_plain(rest, ControlView::Completed(carried));
        match m.frames.last() {
            FrameView::Sequence(statements, next) => {
                if carried is None && next < statements.len() {
                    plain_statements_at(statements, 0, next as int);
                    push_is_plain(
                        rest,
                        FrameView::Sequence(statements, (next + 1) as usize),
                        ControlView::Execute(statements[next as int]),
                    );
                }
            },
            FrameView::Scope(saved) => {
                let back = MachineView { environment: saved, ..rest };
                assert(plain(back));
                control_is_plain(back, ControlView::Completed(carried));
            },
            FrameView::WhileBody(n) => {
                push_is_plain(
                    rest,
                    FrameView::WhileCondition(n),
                    ControlView::Evaluate(n.condition),
                );
            },
            FrameView::Call(saved, function) => {
                let back = MachineView { environment: saved, ..rest };
                assert(plain(back));
                control_is_plain(
                    back,
                    ControlView::Value(semantics::returned(m, function, carried)),
                );
            },
            _ => {},
        }
    }
}

/// Every step keeps a plain machine plain, keeps what every environment
/// binds `this` to, and keeps every field of every instance.
pub proof fn step_is_plain(m: MachineView, reply: Option<ValueView>)
    requires
        plain(m),
    ensures
        carried_on(m, step(m, reply).0),
{
    control_is_plain(m, m.control);
    assert(m == MachineView { control: m.control, ..m });
    match m.control {
        ControlView::Evaluate(e) => {
            evaluate_is_plain(m, e);
        },
        ControlView::Execute(s) => {
            execute_is_plain(m, s);
        },
        ControlView::Value(value) => {
            resume_is_plain(m, value);
        },
        ControlView::Completed(carried) => {
            finish_is_plain(m, carried);
        },
        ControlView::Awaiting(request) => {
            match reply {
                Some(value) => {
                    control_is_plain(m, ControlView::Value(value));
                },
                None => {},
            }
        },
        _ => {},
    }
}

/// Through any stretch of a run, a plain machine stays plain, every
/// environment keeps what it binds `this` to, and every instance keeps its
/// class and its fields.
pub proof fn steps_are_plain(m: MachineView, replies: Seq<Option<ValueView>>)
    requires
        plain(m),
    ensures
        carried_on(m, steps(m, replies)),
    decreases replies.len(),
{
    if replies.len() == 0 {
        control_is_plain(m, m.control);
        assert(m == MachineView { control: m.control, ..m });
    } else {
        let before = steps(m, replies.drop_last());
        steps_are_plain(m, replies.drop_last());
        step_is_plain(before, replies.last());
        carried_on_twice(m, before, steps(m, replies));
    }
}


/// Whether a stretch of a run stays above a height: before each of its
/// steps the machine has more frames than that.
pub open spec fn stays_above(
    m: MachineView,
    replies: Seq<Option<ValueView>>,
    height: int,
) -> bool {
    forall|k: int|
        0 <= k < replies.len() ==> (#[trigger] steps(m, replies.take(k))).frames.len() > height
}

/// The frames below the top stay through a run. Through a stretch of a run
/// that stays above a height, the frames up to that height are what they
/// were: what is entered and left above them does not touch them.
pub proof fn lower_frames_stay(m: MachineView, replies: Seq<Option<ValueView>>, height: int)
    requires
        0 < height <= m.frames.len(),
        stays_above(m, replies, height),
    ensures
        steps(m, replies).frames.len() >= height,
        forall|j: int| 0 <= j < height ==> steps(m, replies).frames[j] == m.frames[j],
    decreases replies.len(),
{
    if replies.len() > 0 {
        let earlier = replies.drop_last();
        assert(replies.take(replies.len() - 1) =~= earlier);
        assert forall|k: int| 0 <= k < earlier.len() implies (#[trigger] steps(
            m,
            earlier.take(k),
        )).frames.len() > height by {
            assert(earlier.take(k) =~= replies.take(k));
        }
        lower_frames_stay(m, earlier, height);
        let before = steps(m, earlier);
        assert(before.frames.len() > height);
        assert forall|j: int| 0 <= j < height implies steps(m, replies).frames[j]
            == m.frames[j] by {
            step_keeps_lower_frames(before, replies.last(), j);
        }
        step_keeps_lower_frames(before, replies.last(), height - 1);
    }
}

/// What `this` is bound to is kept through a run. In a machine that
/// neither declares nor assigns a name `this`, an environment that binds
/// `this` binds it to the same value after any number of steps.
pub proof fn this_is_kept_through_a_run(
    m: MachineView,
    replies: Seq<Option<ValueView>>,
    at: int,
)
    requires
        plain(m),
        0 <= at < m.heap.environments.len(),
        m.heap.environments[at].values.contains_key("this"@),
    ensures
        at < steps(m, replies).heap.environments.len(),
        environment::get_at(steps(m, replies).heap.environments, at, 0, "this"@) == Some(
            m.heap.environments[at].values["this"@],
        ),
{
    steps_are_plain(m, replies);
}

/// The fields of an instance are kept through a run. An instance is of the
/// same class, and has every field that it had, after any number of steps:
/// what a body has written to `this` is there when the body is done.
pub proof fn fields_are_kept_through_a_run(
    m: MachineView,
    replies: Seq<Option<ValueView>>,
    instance: int,
    name: Seq<char>,
)
    requires
        plain(m),
        0 <= instance < m.heap.instances.len(),
    ensures
        instance < steps(m, replies).heap.instances.len(),
        steps(m, replies).heap.instances[instance].klass == m.heap.instances[instance].klass,
        m.heap.instances[instance].fields.contains_key(name) ==> steps(
            m,
            replies,
        ).heap.instances[instance].fields.contains_key(name),
{
    steps_are_plain(m, replies);
}

/// A run is its first steps and then the rest of them.
pub proof fn run_in_two_parts(m: MachineView, replies: Seq<Option<ValueView>>, k: int)
    requires
        0 <= k <= replies.len(),
    ensures
        steps(m, replies) == steps(steps(m, replies.take(k)), replies.skip(k)),
    decreases replies.len(),
{
    if k == replies.len() {
        assert(replies.take(k) =~= replies);
        assert(replies.skip(k) =~= Seq::empty());
    } else {
        let earlier = replies.drop_last();
        run_in_two_parts(m, earlier, k);
        assert(earlier.take(k) =~= replies.take(k));
        assert(replies.skip(k).drop_last() =~= earlier.skip(k));
        assert(replies.skip(k).last() == replies.last());
    }
}

/// What is written during a run stays. A field that an instance has after
/// some of the steps of a run it has after all of them, and the instance
/// is of the same class.
pub proof fn what_is_written_stays(
    m: MachineView,
    replies: Seq<Option<ValueView>>,
    k: int,
    instance: int,
    name: Seq<char>,
)
    requires
        plain(m),
        0 <= k <= replies.len(),
        0 <= instance < steps(m, replies.take(k)).heap.instances.len(),
        steps(m, replies.take(k)).heap.instances[instance].fields.contains_key(name),
    ensures
        instance < steps(m, replies).heap.instances.len(),
        steps(m, replies).heap.instances[instance].klass == steps(
            m,
            replies.take(k),
        ).heap.instances[instance].klass,
        steps(m, replies).heap.instances[instance].fields.contains_key(name),
{
    steps_are_plain(m, replies.take(k));
    run_in_two_parts(m, replies, k);
    fields_are_kept_through_a_run(steps(m, replies.take(k)), replies.skip(k), instance, name);
}

/// An initializer returns `this`, whatever its body does. Let a machine
/// that neither declares nor assigns a name `this` run for any number of
/// steps. When then the frame of a call of an initializer is on top and
/// the body is done, with or without a carried value, the call yields what
/// the initializer's closure bound `this` to before the run.
pub proof fn initializer_returns_this_after_a_run(
    m: MachineView,
    replies: Seq<Option<ValueView>>,
    saved: usize,
    function: FunctionModel,
    carried: Option<ValueView>,
)
    requires
        plain(m),
        function.is_initializer,
        function.closure < m.heap.environments.len(),
        m.heap.environments[function.closure as int].values.contains_key("this"@),
        steps(m, replies).frames.len() > 0,
        steps(m, replies).frames.last() == FrameView::Call(saved, function),
    ensures
        finish(steps(m, replies), carried).0.control == ControlView::Value(
            m.heap.environments[function.closure as int].values["this"@],
        ),
        finish(steps(m, replies), carried).0.environment == saved,
{
    this_is_kept_through_a_run(m, replies, function.closure as int);
}

/// The whole call of an initializer yields `this`. A bound initializer is
/// called with as many arguments as it has parameters; its body runs, for
/// any number of steps, above the frame of the call. When the body is done
/// without a failure, however it was left, the next step hands on what
/// `this` was bound to when the call was made, and the machine is back in
/// the environment and on the frames of the caller.
pub proof fn call_of_initializer_yields_this(
    m: MachineView,
    function: FunctionModel,
    arguments: Seq<ValueView>,
    replies: Seq<Option<ValueView>>,
    carried: Option<ValueView>,
    reply: Option<ValueView>,
)
    requires
        plain(m),
        plain_function(function.declaration),
        function.is_initializer,
        function.closure < m.heap.environments.len(),
        m.heap.environments[function.closure as int].values.contains_key("this"@),
        stays_above(activate(m, function, arguments).0, replies, (m.frames.len() + 1) as int),
        steps(activate(m, function, arguments).0, replies).frames.len() == m.frames.len() + 1,
        steps(activate(m, function, arguments).0, replies).control == ControlView::Completed(
            carried,
        ),
    ensures
        ({
            let done = steps(activate(m, function, arguments).0, replies);
            let back = step(done, reply).0;
            &&& back.control == ControlView::Value(
                m.heap.environments[function.closure as int].values["this"@],
            )
            &&& back.environment == m.environment
            &&& back.frames == m.frames
        }),
{
    let entered = activate(m, function, arguments).0;
    let height = m.frames.len() as int;
    activate_is_plain(m, function, arguments);
    assert(entered.frames[height] == FrameView::Call(m.environment, function));
    assert forall|j: int| 0 <= j < height implies entered.frames[j] == m.frames[j] by {}
    lower_frames_stay(entered, replies, height + 1);
    let done = steps(entered, replies);
    assert(done.frames.last() == FrameView::Call(m.environment, function));
    this_is_kept_through_a_run(entered, replies, function.closure as int);
    assert(step(done, reply).0.frames =~= m.frames);
}

/// The whole call of a class yields the instance, with what `init` wrote.
/// A class that has an `init` is called with as many arguments as `init`
/// has parameters. The call makes a new instance of the class and runs
/// `init` bound to it, for any number of steps, above the frame of the call
/// of `init`. Through all of them the instance is there, of the class, and
/// every field that it has after some of the steps it has at their end.
/// When the body of `init` is done without a failure, the next step hands
/// on the instance as what `init` returns, and the step after that hands
/// it on as what the call of the class yields, back in the environment and
/// on the frames of the caller.
pub proof fn call_of_class_yields_instance(
    m: MachineView,
    paren: Token,
    class: usize,
    arguments: Seq<ValueView>,
    replies: Seq<Option<ValueView>>,
    carried: Option<ValueView>,
    first: Option<ValueView>,
    second: Option<ValueView>,
)
    requires
        plain(m),
        m.heap.instances.len() < usize::MAX,
        m.heap.environments.len() < usize::MAX,
        heap::find_method(m.heap.classes, class as int, "init"@) matches Some(f)
            && f.declaration.parameters@.len() == arguments.len(),
        stays_above(call_class(m, paren, class, arguments).0, replies, (m.frames.len() + 2) as int),
    ensures
        ({
            let instance = m.heap.instances.len() as usize;
            let done = steps(call_class(m, paren, class, arguments).0, replies);
            let returned = step(done, first).0;
            let yielded = step(returned, second).0;
            &&& instance < done.heap.instances.len()
            &&& done.heap.instances[instance as int].klass == class
            &&& forall|k: int, name: Seq<char>|
                0 <= k <= replies.len() && instance < (#[trigger] steps(
                    call_class(m, paren, class, arguments).0,
                    replies.take(k),
                )).heap.instances.len() && #[trigger] steps(
                    call_class(m, paren, class, arguments).0,
                    replies.take(k),
                ).heap.instances[instance as int].fields.contains_key(name)
                    ==> done.heap.instances[instance as int].fields.contains_key(name)
            &&& done.frames.len() == m.frames.len() + 2 && done.control == ControlView::Completed(
                carried,
            ) ==> {
                &&& returned.control == ControlView::Value(ValueView::Instance(instance))
                &&& yielded.control == ControlView::Value(ValueView::Instance(instance))
                &&& yielded.environment == m.environment
                &&& yielded.frames == m.frames
                &&& yielded.heap.instances == done.heap.instances
            }
        }),
{
    let f = heap::find_method(m.heap.classes, class as int, "init"@)->0;
    let instance = m.heap.instances.len() as usize;
    let height = m.frames.len() as int;
    let entered = call_class(m, paren, class, arguments).0;
    found_method_is_kept(m.heap, class as int, "init"@);
    class_is_plain(m, paren, class, arguments);
    semantics::construction_yields_instance(m, paren, class, arguments);
    let bound = heap::bind(m.heap.environments, f, instance).1;
    let closure = m.heap.environments.len() as int;
    assert(entered.frames[height] == FrameView::Construct(instance));
    assert(entered.frames[height + 1] == FrameView::Call(m.environment, bound));
    assert forall|j: int| 0 <= j < height implies entered.frames[j] == m.frames[j] by {}
    // The closure of the bound method holds `this`, and binding the
    // parameters beside it has not touched it.
    let bound_environments = heap::bind(m.heap.environments, f, instance).0;
    assert(bound_environments[closure].values.contains_key("this"@));
    assert(bound_environments[closure].values["this"@] == ValueView::Instance(instance));
    parameters_keep_this(
        bound_environments,
        environment::extend(bound_environments, Some(bound.closure)),
        bound_environments.len() as int,
        f.declaration.parameters@,
        arguments,
        0,
    );
    assert(entered.heap.environments[closure].values.contains_key("this"@));
    lower_frames_stay(entered, replies, height + 2);
    this_is_kept_through_a_run(entered, replies, closure);
    fields_are_kept_through_a_run(entered, replies, instance as int, Seq::empty());
    let done = steps(entered, replies);
    assert forall|k: int, name: Seq<char>|
        0 <= k <= replies.len() && instance < (#[trigger] steps(
            entered,
            replies.take(k),
        )).heap.instances.len() && #[trigger] steps(
            entered,
            replies.take(k),
        ).heap.instances[instance as int].fields.contains_key(name)
        implies done.heap.instances[instance as int].fields.contains_key(name) by {
        what_is_written_stays(entered, replies, k, instance as int, name);
    }
    if done.frames.len() == height + 2 && done.control == ControlView::Completed(carried) {
        assert(done.frames.last() == FrameView::Call(m.environment, bound));
        let returned = step(done, first).0;
        assert(returned.frames =~= done.frames.drop_last());
        assert(returned.frames.last() == FrameView::Construct(instance));
        let yielded = step(returned, second).0;
        assert(yielded.frames =~= m.frames);
    }
}

/// A machine that is started on a program that neither declares nor
/// assigns a name `this` is plain.
pub proof fn start_is_plain(program: Seq<Statement>, locals: Map<u64, usize>)
    requires
        plain_statements(program, 0),
    ensures
        plain(semantics::start(program, locals)),
{
}

/// A program that was parsed from text stays plain however long it runs:
/// what the parser ensures of its statements holds of every machine that
/// the program reaches.
pub proof fn program_stays_plain(
    program: Seq<Statement>,
    locals: Map<u64, usize>,
    replies: Seq<Option<ValueView>>,
)
    requires
        plain_statements(program, 0),
    ensures
        plain(steps(semantics::start(program, locals), replies)),
{
    steps_are_plain(semantics::start(program, locals), replies);
}

/// In a program that was parsed from text, an initializer returns `this`.
/// Let the program have run for any number of steps, and let a function of
/// its heap be a bound initializer. When it is called with as many
/// arguments as it has parameters, and its body is done without a failure,
/// however it was left, the next step hands on what `this` was bound to
/// when the call was made, back in the environment and on the frames of
/// the caller.
pub proof fn initializer_of_a_program_returns_this(
    program: Seq<Statement>,
    locals: Map<u64, usize>,
    before: Seq<Option<ValueView>>,
    handle: usize,
    arguments: Seq<ValueView>,
    replies: Seq<Option<ValueView>>,
    carried: Option<ValueView>,
    reply: Option<ValueView>,
)
    requires
        plain_statements(program, 0),
        ({
            let m = steps(semantics::start(program, locals), before);
            let function = m.heap.functions[handle as int];
            let entered = activate(m, function, arguments).0;
            &&& handle < m.heap.functions.len()
            &&& function.is_initializer
            &&& function.closure < m.heap.environments.len()
            &&& m.heap.environments[function.closure as int].values.contains_key("this"@)
            &&& stays_above(entered, replies, (m.frames.len() + 1) as int)
            &&& steps(entered, replies).frames.len() == m.frames.len() + 1
            &&& steps(entered, replies).control == ControlView::Completed(carried)
        }),
    ensures
        ({
            let m = steps(semantics::start(program, locals), before);
            let function = m.heap.functions[handle as int];
            let back = step(steps(activate(m, function, arguments).0, replies), reply).0;
            &&& back.control == ControlView::Value(
                m.heap.environments[function.closure as int].values["this"@],
            )
            &&& back.environment == m.environment
            &&& back.frames == m.frames
        }),
{
    let m = steps(semantics::start(program, locals), before);
    program_stays_plain(program, locals, before);
    call_of_initializer_yields_this(
        m,
        m.heap.functions[handle as int],
        arguments,
        replies,
        carried,
        reply,
    );
}

/// In a program that was parsed from text, the call of a class yields the
/// instance, with what `init` wrote. Let the program have run for any
/// number of steps, and let a class of its heap have an `init`. When the
/// class is called with as many arguments as `init` has parameters, a new
/// instance of the class is made and `init` runs bound to it; and when the
/// body of `init` is done without a failure, the instance is what `init`
/// returns and what the call of the class yields, with every field that
/// was written to it on the way.
pub proof fn class_of_a_program_yields_instance(
    program: Seq<Statement>,
    locals: Map<u64, usize>,
    before: Seq<Option<ValueView>>,
    paren: Token,
    class: usize,
    arguments: Seq<ValueView>,
    replies: Seq<Option<ValueView>>,
    carried: Option<ValueView>,
    first: Option<ValueView>,
    second: Option<ValueView>,
)
    requires
        plain_statements(program, 0),
        ({
            let m = steps(semantics::start(program, locals), before);
            let entered = call_class(m, paren, class, arguments).0;
            &&& m.heap.instances.len() < usize::MAX
            &&& m.heap.environments.len() < usize::MAX
            &&& heap::find_method(m.heap.classes, class as int, "init"@) matches Some(f)
                && f.declaration.parameters@.len() == arguments.len()
            &&& stays_above(entered, replies, (m.frames.len() + 2) as int)
            &&& steps(entered, replies).frames.len() == m.frames.len() + 2
            &&& steps(entered, replies).control == ControlView::Completed(carried)
        }),
    ensures
        ({
            let m = steps(semantics::start(program, locals), before);
            let instance = m.heap.instances.len() as usize;
            let entered = call_class(m, paren, class, arguments).0;
            let done = steps(entered, replies);
            let yielded = step(step(done, first).0, second).0;
            &&& step(done, first).0.control == ControlView::Value(ValueView::Instance(instance))
            &&& yielded.control == ControlView::Value(ValueView::Instance(instance))
            &&& yielded.environment == m.environment
            &&& yielded.frames == m.frames
            &&& instance < yielded.heap.instances.len()
            &&& yielded.heap.instances[instance as int].klass == class
            &&& forall|k: int, name: Seq<char>|
                0 <= k <= replies.len() && instance < (#[trigger] steps(
                    entered,
                    replies.take(k),
                )).heap.instances.len() && #[trigger] steps(
                    entered,
                    replies.take(k),
                ).heap.instances[instance as int].fields.contains_key(name)
                    ==> yielded.heap.instances[instance as int].fields.contains_key(name)
        }),
{
    let m = steps(semantics::start(program, locals), before);
    program_stays_plain(program, locals, before);
    call_of_class_yields_instance(m, paren, class, arguments, replies, carried, first, second);
}

/// Whether a token names `this`.
fn names_this(name: &Token) -> (r: bool)
    ensures
        r == (name.token_value@ == "this"@),
{
    name.token_value == String::from_str("this")
}

/// Whether the expressions of a list assign to no name `this`.
pub fn expressions_are_plain(list: &Vec<Expression>) -> (r: bool)
    ensures
        r == plain_expressions(list@, 0),
    decreases list,
{
    let mut i: usize = 0;
    while i < list.len()
        invariant
            i <= list@.len(),
            plain_expressions(list@, 0) == plain_expressions(list@, i as int),
        decreases list@.len() - i,
    {
        if !expression_is_plain(&list[i]) {
            return false;
        }
        i += 1;
    }
    true
}

/// Whether an expression assigns to no name `this`.
pub fn expression_is_plain(e: &Expression) -> (r: bool)
    ensures
        r == plain_expression(*e),
    decreases e,
{
    match e {
        Expression::Literal(_) => true,
        Expression::Grouping(n) => expression_is_plain(&n.expression),
        Expression::Unary(n) => expression_is_plain(&n.expression),
        Expression::Binary(n) => expression_is_plain(&n.left) && expression_is_plain(&n.right),
        Expression::Logical(n) => expression_is_plain(&n.left) && expression_is_plain(&n.right),
        Expression::Variable(_) => true,
        Expression::Assignment(n) => !names_this(&n.name) && expression_is_plain(&n.value),
        Expression::Call(n) => expression_is_plain(&n.callee) && expressions_are_plain(
            &n.arguments,
        ),
        Expression::Get(n) => expression_is_plain(&n.expression),
        Expression::SetField(n) => expression_is_plain(&n.expression) && expression_is_plain(
            &n.value,
        ),
        Expression::This(_) => true,
        Expression::Super(_) => true,
    }
}

/// Whether an optional expression assigns to no name `this`.
fn optional_is_plain(e: &Option<Expression>) -> (r: bool)
    ensures
        r == plain_optional(*e),
    decreases e,
{
    match e {
        Some(e) => expression_is_plain(e),
        None => true,
    }
}

/// Whether the body of a function neither declares nor assigns a name
/// `this`.
pub fn function_is_plain(f: &FunctionStatement) -> (r: bool)
    ensures
        r == plain_function(*f),
    decreases f,
{
    statements_are_plain(&f.body)
}

/// Whether the bodies of the functions of a list neither declare nor assign
/// a name `this`.
pub fn functions_are_plain(list: &Vec<FunctionStatement>) -> (r: bool)
    ensures
        r == plain_functions(list@, 0),
    decreases list,
{
    let mut i: usize = 0;
    while i < list.len()
        invariant
            i <= list@.len(),
            plain_functions(list@, 0) == plain_functions(list@, i as int),
        decreases list@.len() - i,
    {
        if !function_is_plain(&list[i]) {
            return false;
        }
        i += 1;
    }
    true
}

/// Whether a statement neither declares nor assigns a name `this`.
pub fn statement_is_plain(s: &Statement) -> (r: bool)
    ensures
        r == plain_statement(*s),
    decreases s,
{
    match s {
        Statement::Expression(n) => expression_is_plain(&n.expression),
        Statement::Print(n) => expression_is_plain(&n.expression),
        Statement::Variable(n) => !names_this(&n.name) && optional_is_plain(&n.initializer),
        Statement::Block(n) => statements_are_plain(&n.statements),
        Statement::If(n) => expression_is_plain(&n.condition) && statement_is_plain(
            &n.then_statement,
        ) && match &n.else_statement {
            Some(other) => statement_is_plain(other),
            None => true,
        },
        Statement::While(n) => expression_is_plain(&n.condition) && statement_is_plain(&n.body),
        Statement::Function(n) => !names_this(&n.name) && function_is_plain(n),
        Statement::Return(n) => optional_is_plain(&n.value),
        Statement::Class(n) => !names_this(&n.name) && functions_are_plain(&n.methods),
    }
}

/// Whether the statements of a list neither declare nor assign a name
/// `this`: whether what is proved of plain machines holds of a machine that
/// is started on them.
pub fn statements_are_plain(list: &Vec<Statement>) -> (r: bool)
    ensures
        r == plain_statements(list@, 0),
    decreases list,
{
    let mut i: usize = 0;
    while i < list.len()
        invariant
            i <= list@.len(),
            plain_statements(list@, 0) == plain_statements(list@, i as int),
        decreases list@.len() - i,
    {
        if !statement_is_plain(&list[i]) {
            return false;
        }
        i += 1;
    }
    true
}

} // verus!
