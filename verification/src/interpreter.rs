//! The evaluator.
//!
//! The interpreter is a step machine over the tree. It performs no I/O
//! and no arithmetic on numbers: a step that needs either hands the work
//! to the host as an [`Action`] and the host hands the answer to the next
//! step. Every step is proved to be the step of [`crate::semantics`].

use vstd::prelude::*;
use vstd::hash_map::StringHashMap;
use vstd::string::StringExecFns;
use std::collections::HashMap;
use crate::token::{Token, TokenType};
use crate::ast::{
    AssignmentExpression, BinaryExpression, BlockStatement, CallExpression, ClassStatement,
    Expression, FunctionStatement, GetExpression, Grouping, IfStatement, Literal,
    LogicalExpression, ReturnStatement, SetExpression, Statement, SuperExpression,
    ThisExpression, UnaryExpression, VariableExpression, VariableStatement, WhileStatement,
};
use crate::value::{
    Clock, LiteralValue, ValueView, equality, optional_value_view, truthy, values_view,
};
use crate::error::{RuntimeError, RuntimeMessage};
use crate::environment;
use crate::environment::{EnvExt, Environment, GLOBALS};
use crate::heap;
use crate::heap::{Heap, HeapView, LoxClass, LoxFunction, LoxInstanceExt};
use crate::machine::{
    Action, ActionView, Control, ControlView, Frame, FrameView, MachineView, Request,
};
use crate::semantics;
use crate::construction::{plain, plain_statements, step_is_plain};

verus! {

broadcast use vstd::std_specs::hash::group_hash_axioms;

/// The interpreter: what it does next, what it does with the result, the
/// current environment, the heap, and the resolver's side-table.
pub struct Interpreter<'a> {
    pub control: Control<'a>,
    pub frames: Vec<Frame<'a>>,
    pub environment: usize,
    pub heap: Heap<'a>,
    pub locals: HashMap<u64, usize>,
}

/// The views of the frames of a vector, in order.
pub open spec fn frames_view<'a>(frames: Seq<Frame<'a>>) -> Seq<FrameView> {
    Seq::new(frames.len(), |i: int| frames[i]@)
}

impl<'a> View for Interpreter<'a> {
    type V = MachineView;

    open spec fn view(&self) -> MachineView {
        MachineView {
            control: self.control@,
            frames: frames_view(self.frames@),
            environment: self.environment,
            heap: self.heap@,
            locals: self.locals@,
        }
    }
}

impl<'a> Interpreter<'a> {
    /// The interpreter's invariant.
    pub open spec fn wf(&self) -> bool {
        semantics::well_formed(self@)
    }

    /// Go on with another control.
    fn goto(&mut self, control: Control<'a>) -> (r: Action)
        requires
            old(self).wf(),
        ensures
            final(self).wf(),
            (final(self)@, r@) == semantics::goto(old(self)@, control@),
    {
        self.control = control;
        Action::Continue
    }

    /// Hand a value to the frame on top.
    fn produce(&mut self, value: LiteralValue) -> (r: Action)
        requires
            old(self).wf(),
        ensures
            final(self).wf(),
            (final(self)@, r@) == semantics::produce(old(self)@, value@),
    {
        self.goto(Control::Value(value))
    }

    /// Hand the completion of a statement to the frame on top.
    fn complete(&mut self, carried: Option<LiteralValue>) -> (r: Action)
        requires
            old(self).wf(),
        ensures
            final(self).wf(),
            (final(self)@, r@) == semantics::complete(old(self)@, optional_value_view(carried)),
    {
        self.goto(Control::Completed(carried))
    }

    /// Put a frame on top.
    fn push_frame(&mut self, frame: Frame<'a>)
        requires
            old(self).wf(),
            semantics::frame_fits(frame@, old(self)@.heap),
        ensures
            final(self).wf(),
            final(self)@ == (MachineView {
                frames: old(self)@.frames.push(frame@),
                ..old(self)@
            }),
    {
        self.frames.push(frame);
        assert(self@.frames =~= old(self)@.frames.push(frame@));
    }

    /// Take the top frame off.
    fn pop_frame(&mut self) -> (r: Frame<'a>)
        requires
            old(self).wf(),
            old(self)@.frames.len() > 0,
        ensures
            final(self).wf(),
            final(self)@ == semantics::pop(old(self)@),
            r@ == old(self)@.frames.last(),
            semantics::frame_fits(r@, old(self)@.heap),
    {
        assert(old(self)@.frames.last() == old(self).frames@.last()@);
        let frame = self.frames.pop().unwrap();
        assert(self@.frames =~= old(self)@.frames.drop_last());
        frame
    }

    /// Put a frame on top and go on with another control.
    fn push(&mut self, frame: Frame<'a>, control: Control<'a>) -> (r: Action)
        requires
            old(self).wf(),
            semantics::frame_fits(frame@, old(self)@.heap),
        ensures
            final(self).wf(),
            (final(self)@, r@) == semantics::push(old(self)@, frame@, control@),
    {
        self.push_frame(frame);
        self.goto(control)
    }

    /// The environment that is current when every open frame has been
    /// left: the one that was current before the outermost open block or
    /// call was entered.
    pub fn unwound(&self) -> (r: usize)
        requires
            self.wf(),
        ensures
            r == semantics::unwound(self@.frames, self@.environment),
            r < self@.heap.environments.len(),
    {
        let mut environment = self.environment;
        let mut height = self.frames.len();
        proof {
            assert(self@.frames.subrange(0, height as int) =~= self@.frames);
            semantics::unwound_exists(self@.frames, self@.environment, self@.heap);
        }
        while height > 0
            invariant
                height <= self.frames@.len(),
                self.wf(),
                environment < self@.heap.environments.len(),
                semantics::unwound(self@.frames, self@.environment) == semantics::unwound(
                    self@.frames.subrange(0, height as int),
                    environment,
                ),
            decreases height,
        {
            let ghost open = self@.frames.subrange(0, height as int);
            assert(open.last() == self.frames@[height - 1]@);
            assert(open.drop_last() =~= self@.frames.subrange(0, height - 1));
            assert(semantics::frame_fits(self@.frames[height - 1], self@.heap));
            match &self.frames[height - 1] {
                Frame::Scope(saved) => {
                    environment = *saved;
                },
                Frame::Call(saved, _) => {
                    environment = *saved;
                },
                _ => {},
            }
            height -= 1;
        }
        environment
    }

    /// Fail with a runtime error, and go back to the environment that was
    /// current before the outermost open block or call was entered.
    fn fail(&mut self, message: RuntimeMessage, token: &Token) -> (r: Action)
        requires
            old(self).wf(),
        ensures
            final(self).wf(),
            (final(self)@, r@) == semantics::fail(old(self)@, message, *token),
    {
        let error = self.error(message, token);
        self.environment = self.unwound();
        self.control = Control::Failed(error.clone());
        Action::Fail(error)
    }

    /// Ask the host, and wait for its answer.
    fn ask(&mut self, request: Request) -> (r: Action)
        requires
            old(self).wf(),
        ensures
            final(self).wf(),
            (final(self)@, r@) == semantics::ask(old(self)@, request@),
    {
        self.control = Control::Awaiting(request.clone());
        Action::Ask(request)
    }

    /// Stop: the program has run to its end.
    fn stop(&mut self) -> (r: Action)
        requires
            old(self).wf(),
        ensures
            final(self).wf(),
            (final(self)@, r@) == semantics::stop(old(self)@),
    {
        self.control = Control::Finished;
        Action::Done
    }
}

impl<'a> Interpreter<'a> {
    /// Enter a function: bind the parameters to the arguments in a fresh
    /// environment below the closure's, and run the body in it.
    pub fn activate(
        &mut self,
        function: LoxFunction<'a>,
        arguments: Vec<LiteralValue>,
    ) -> (r: Action)
        requires
            old(self).wf(),
            function.closure < old(self)@.heap.environments.len(),
        ensures
            final(self).wf(),
            (final(self)@, r@) == semantics::activate(
                old(self)@,
                function@,
                values_view(arguments@),
            ),
    {
        let at = self.heap.extend(function.closure);
        let ghost extended = self@.heap.environments;
        let parameters = &function.declaration.parameters;
        let mut i: usize = 0;
        while i < parameters.len() && i < arguments.len()
            invariant
                heap::well_formed(self@.heap),
                at < self@.heap.environments.len(),
                self@.heap.environments.len() == extended.len(),
                self@ == (MachineView {
                    heap: HeapView { environments: self@.heap.environments, ..old(self)@.heap },
                    ..old(self)@
                }),
                parameters == function.declaration.parameters,
                semantics::bind_parameters(
                    extended,
                    at as int,
                    parameters@,
                    values_view(arguments@),
                    0,
                ) == semantics::bind_parameters(
                    self@.heap.environments,
                    at as int,
                    parameters@,
                    values_view(arguments@),
                    i as int,
                ),
            decreases parameters@.len() - i,
        {
            self.heap.define(at, parameters[i].token_value.clone(), arguments[i].clone());
            i += 1;
        }
        let saved = self.environment;
        self.frames.push(Frame::Call(saved, function));
        self.frames.push(Frame::Sequence(&function.declaration.body, 0));
        self.environment = at;
        self.control = Control::Completed(None);
        assert(self@.frames =~= old(self)@.frames.push(FrameView::Call(saved, function@)).push(
            FrameView::Sequence(function.declaration.body@, 0),
        ));
        Action::Continue
    }

    /// The next argument of a call is evaluated, or the call is made if
    /// there is none left.
    pub fn next_argument(
        &mut self,
        expression: &'a CallExpression,
        callee: LiteralValue,
        arguments: Vec<LiteralValue>,
    ) -> (r: Action)
        requires
            old(self).wf(),
        ensures
            final(self).wf(),
            (final(self)@, r@) == semantics::next_argument(
                old(self)@,
                *expression,
                callee@,
                values_view(arguments@),
            ),
    {
        let done = arguments.len();
        if done < expression.arguments.len() {
            self.push(
                Frame::Argument(expression, callee, arguments),
                Control::Evaluate(&expression.arguments[done]),
            )
        } else {
            self.visit_call_expression(expression, callee, arguments)
        }
    }

    /// The object of a write to a property is known: the value to write is
    /// evaluated next.
    pub fn set_object(&mut self, expression: &'a SetExpression, object: LiteralValue) -> (r: Action)
        requires
            old(self).wf(),
        ensures
            final(self).wf(),
            (final(self)@, r@) == semantics::set_object(old(self)@, *expression, object@),
    {
        match object {
            LiteralValue::Instance(i) => {
                if i < self.heap.instances.len() {
                    self.push(Frame::SetValue(expression, i), Control::Evaluate(&*expression.value))
                } else {
                    self.fail(RuntimeMessage::OnlyInstancesHaveProperties, &expression.name)
                }
            },
            _ => self.fail(RuntimeMessage::OnlyInstancesHaveProperties, &expression.name),
        }
    }

    /// A value reaches the frame on top.
    pub fn resume(&mut self, value: LiteralValue) -> (r: Action)
        requires
            old(self).wf(),
        ensures
            final(self).wf(),
            (final(self)@, r@) == semantics::resume(old(self)@, value@),
    {
        if self.frames.len() == 0 {
            return self.stop();
        }
        assert(old(self)@.frames.last() == old(self).frames@.last()@);
        match &self.frames[self.frames.len() - 1] {
            Frame::Sequence(_, _) | Frame::Scope(_) | Frame::WhileBody(_) | Frame::Call(_, _) => {
                return self.stop();
            },
            _ => {},
        }
        match self.pop_frame() {
            Frame::Unary(n) => self.visit_unary_expression(n, value),
            Frame::BinaryLeft(n) => self.push(
                Frame::BinaryRight(n, value),
                Control::Evaluate(&*n.right),
            ),
            Frame::BinaryRight(n, left) => self.visit_binary_expression(n, left, value),
            Frame::Logical(n) => self.visit_logical_expression(n, value),
            Frame::Assign(n) => self.visit_assignment_expression(n, value),
            Frame::Callee(n) => {
                let none: Vec<LiteralValue> = Vec::new();
                assert(values_view(none@) =~= Seq::empty());
                self.next_argument(n, value, none)
            },
            Frame::Argument(n, callee, arguments) => {
                let mut arguments = arguments;
                let ghost before = arguments@;
                arguments.push(value);
                assert(values_view(arguments@) =~= values_view(before).push(value@));
                self.next_argument(n, callee, arguments)
            },
            Frame::Get(n) => self.visit_get_expression(n, value),
            Frame::SetObject(n) => self.set_object(n, value),
            Frame::SetValue(n, instance) => self.visit_set_expression(n, instance, value),
            Frame::Expression => self.visit_expression_statement(),
            Frame::Print => self.visit_print_statement(value),
            Frame::Variable(n) => self.visit_variable_statement(n, value),
            Frame::Return => self.complete(Some(value)),
            Frame::If(n) => self.visit_if_statement(n, value),
            Frame::WhileCondition(n) => self.visit_while_statement(n, value),
            Frame::Construct(instance) => self.produce(LiteralValue::Instance(instance)),
            _ => self.stop(),
        }
    }

    /// What a call yields.
    pub fn returned(
        &self,
        function: &LoxFunction<'a>,
        carried: Option<LiteralValue>,
    ) -> (r: LiteralValue)
        requires
            self.wf(),
        ensures
            r@ == semantics::returned(self@, function@, optional_value_view(carried)),
    {
        if function.is_initializer {
            if function.closure < self.heap.environments.len() {
                match self.heap.environments.get_at(function.closure, 0, "this") {
                    Some(this) => this,
                    None => LiteralValue::Nil,
                }
            } else {
                LiteralValue::Nil
            }
        } else {
            match carried {
                Some(value) => value,
                None => LiteralValue::Nil,
            }
        }
    }

    /// The completion of a statement reaches the frame on top.
    pub fn finish(&mut self, carried: Option<LiteralValue>) -> (r: Action)
        requires
            old(self).wf(),
        ensures
            final(self).wf(),
            (final(self)@, r@) == semantics::finish(old(self)@, optional_value_view(carried)),
    {
        if self.frames.len() == 0 {
            return self.stop();
        }
        assert(old(self)@.frames.last() == old(self).frames@.last()@);
        match &self.frames[self.frames.len() - 1] {
            Frame::Sequence(_, _) | Frame::Scope(_) | Frame::WhileBody(_) | Frame::Call(_, _) => {},
            _ => {
                return self.stop();
            },
        }
        match self.pop_frame() {
            Frame::Sequence(statements, next) => {
                if carried.is_none() && next < statements.len() {
                    self.push(
                        Frame::Sequence(statements, next + 1),
                        Control::Execute(&statements[next]),
                    )
                } else {
                    self.complete(carried)
                }
            },
            Frame::Scope(saved) => {
                self.environment = saved;
                self.complete(carried)
            },
            Frame::WhileBody(n) => {
                if carried.is_none() {
                    self.push(Frame::WhileCondition(n), Control::Evaluate(&n.condition))
                } else {
                    self.complete(carried)
                }
            },
            Frame::Call(saved, function) => {
                let value = self.returned(&function, carried);
                self.environment = saved;
                self.produce(value)
            },
            _ => self.stop(),
        }
    }
}

/// What can be called: to be called is to take a number of arguments and to
/// make the machine take the step of the call.
pub trait LoxCallableTrait<'a> {
    /// Whether the machine holds what the callee names.
    spec fn known(&self, m: MachineView) -> bool;

    /// The number of arguments that a call takes.
    spec fn parameters(&self, m: MachineView) -> nat;

    /// The step of a call.
    spec fn called(
        &self,
        m: MachineView,
        paren: Token,
        arguments: Seq<ValueView>,
    ) -> (MachineView, ActionView);

    /// The number of arguments that a call takes.
    fn arity(&self, interpreter: &Interpreter<'a>) -> (r: usize)
        requires
            interpreter.wf(),
            self.known(interpreter@),
        ensures
            r == self.parameters(interpreter@),
    ;

    /// Make the call. A call with another number of arguments than the
    /// callee takes fails.
    fn call(
        &self,
        interpreter: &mut Interpreter<'a>,
        paren: &Token,
        arguments: Vec<LiteralValue>,
    ) -> (r: Action)
        requires
            old(interpreter).wf(),
            self.known(old(interpreter)@),
        ensures
            final(interpreter).wf(),
            (final(interpreter)@, r@) == self.called(
                old(interpreter)@,
                *paren,
                values_view(arguments@),
            ),
    ;
}

impl<'a> LoxCallableTrait<'a> for LoxFunction<'a> {
    open spec fn known(&self, m: MachineView) -> bool {
        self.closure < m.heap.environments.len()
    }

    open spec fn parameters(&self, m: MachineView) -> nat {
        self@.declaration.parameters@.len()
    }

    open spec fn called(
        &self,
        m: MachineView,
        paren: Token,
        arguments: Seq<ValueView>,
    ) -> (MachineView, ActionView) {
        semantics::call_function(m, paren, self@, arguments)
    }

    fn arity(&self, interpreter: &Interpreter<'a>) -> (r: usize) {
        self.declaration.parameters.len()
    }

    /// The number of arguments must be the number of parameters; the body
    /// is then run in a fresh environment that holds them. What the call
    /// yields is handed on when the body is done: for an initializer it is
    /// `this`.
    fn call(
        &self,
        interpreter: &mut Interpreter<'a>,
        paren: &Token,
        arguments: Vec<LiteralValue>,
    ) -> (r: Action) {
        let expected = self.declaration.parameters.len();
        if arguments.len() != expected {
            interpreter.fail(RuntimeMessage::WrongArity { expected, got: arguments.len() }, paren)
        } else {
            interpreter.activate(*self, arguments)
        }
    }
}

impl<'a> LoxCallableTrait<'a> for Clock {
    open spec fn known(&self, m: MachineView) -> bool {
        true
    }

    open spec fn parameters(&self, m: MachineView) -> nat {
        0
    }

    open spec fn called(
        &self,
        m: MachineView,
        paren: Token,
        arguments: Seq<ValueView>,
    ) -> (MachineView, ActionView) {
        semantics::call_clock(m, paren, arguments)
    }

    fn arity(&self, interpreter: &Interpreter<'a>) -> (r: usize) {
        0
    }

    /// `clock` takes no arguments, and asks the host for the time.
    fn call(
        &self,
        interpreter: &mut Interpreter<'a>,
        paren: &Token,
        arguments: Vec<LiteralValue>,
    ) -> (r: Action) {
        if arguments.len() == 0 {
            interpreter.ask(Request::Clock)
        } else {
            interpreter.fail(
                RuntimeMessage::WrongArity { expected: 0, got: arguments.len() },
                paren,
            )
        }
    }
}

impl<'a> LoxCallableTrait<'a> for LiteralValue {
    open spec fn known(&self, m: MachineView) -> bool {
        true
    }

    open spec fn parameters(&self, m: MachineView) -> nat {
        semantics::arity(m, self@)
    }

    open spec fn called(
        &self,
        m: MachineView,
        paren: Token,
        arguments: Seq<ValueView>,
    ) -> (MachineView, ActionView) {
        semantics::call_value(m, paren, self@, arguments)
    }

    fn arity(&self, interpreter: &Interpreter<'a>) -> (r: usize) {
        match self {
            LiteralValue::Function(f) => {
                if *f < interpreter.heap.functions.len() {
                    let function = interpreter.heap.functions[*f];
                    assert(interpreter@.heap.functions[*f as int] == function@);
                    function.declaration.parameters.len()
                } else {
                    0
                }
            },
            LiteralValue::LoxClass(c) => {
                if *c < interpreter.heap.classes.len() {
                    LoxClass::arity(&interpreter.heap.classes, *c)
                } else {
                    0
                }
            },
            _ => 0,
        }
    }

    /// A function or a class is called; `clock` asks the host for the
    /// time; nothing else can be called.
    fn call(
        &self,
        interpreter: &mut Interpreter<'a>,
        paren: &Token,
        arguments: Vec<LiteralValue>,
    ) -> (r: Action) {
        match self {
            LiteralValue::Function(f) => {
                if *f < interpreter.heap.functions.len() {
                    let function = interpreter.heap.functions[*f];
                    assert(interpreter@.heap.functions[*f as int] == function@);
                    function.call(interpreter, paren, arguments)
                } else {
                    interpreter.fail(RuntimeMessage::CanOnlyCallFunctionsAndClasses, paren)
                }
            },
            LiteralValue::LoxClass(c) => {
                if *c < interpreter.heap.classes.len() {
                    LoxClass::call(*c, interpreter, paren, arguments)
                } else {
                    interpreter.fail(RuntimeMessage::CanOnlyCallFunctionsAndClasses, paren)
                }
            },
            LiteralValue::Clock(clock) => clock.call(interpreter, paren, arguments),
            _ => interpreter.fail(RuntimeMessage::CanOnlyCallFunctionsAndClasses, paren),
        }
    }
}

impl<'a> LoxClass<'a> {
    /// The number of arguments that a call of the class at `class` takes:
    /// that of its `init`, or none.
    pub fn arity(classes: &Vec<LoxClass<'a>>, class: usize) -> (r: usize)
        requires
            heap::rooted(heap::classes_view(classes@)),
            class < classes@.len(),
        ensures
            r == match heap::find_method(heap::classes_view(classes@), class as int, "init"@) {
                Some(f) => f.declaration.parameters@.len(),
                None => 0,
            },
    {
        match LoxClass::find_method(classes, class, "init") {
            Some(initializer) => initializer.declaration.parameters.len(),
            None => 0,
        }
    }

    /// Call the class at `class`: make an instance and, if the class has an
    /// `init`, run it bound to the instance before the instance is handed
    /// on.
    pub fn call(
        class: usize,
        interpreter: &mut Interpreter<'a>,
        paren: &Token,
        arguments: Vec< LiteralValue, >,
    ) -> (r: Action)
        requires
            old(interpreter).wf(),
            class < old(interpreter)@.heap.classes.len(),
        ensures
            final(interpreter).wf(),
            (final(interpreter)@, r@) == semantics::call_class(
                old(interpreter)@,
                *paren,
                class,
                values_view(arguments@),
            ),
    {
        let expected = LoxClass::arity(&interpreter.heap.classes, class);
        if arguments.len() != expected {
            return interpreter.fail(
                RuntimeMessage::WrongArity { expected, got: arguments.len() },
                paren,
            );
        }
        proof {
            heap::found_method_fits(interpreter@.heap, class as int, "init"@);
        }
        let instance = interpreter.heap.add_instance(class);
        proof {
            semantics::growing_keeps_well_formed(old(interpreter)@, interpreter@.heap);
        }
        match LoxClass::find_method(&interpreter.heap.classes, class, "init") {
            Some(initializer) => {
                let bound = interpreter.heap.bind(initializer, instance);
                proof {
                    semantics::growing_keeps_well_formed(old(interpreter)@, interpreter@.heap);
                }
                interpreter.push_frame(Frame::Construct(instance));
                interpreter.activate(bound, arguments)
            },
            None => interpreter.produce(LiteralValue::Instance(instance)),
        }
    }
}

/// The view of a map of methods.
pub open spec fn methods_view<'a>(
    methods: StringHashMap<LoxFunction<'a>>,
) -> Map<Seq<char>, heap::FunctionModel> {
    Map::new(|k: Seq<char>| methods@.contains_key(k), |k: Seq<char>| methods@[k]@)
}

impl<'a> Interpreter<'a> {
    /// The methods of a class, each with the given closure.
    fn methods_of(
        declarations: &'a Vec<FunctionStatement>,
        closure: usize,
    ) -> (r: StringHashMap<LoxFunction<'a>>)
        ensures
            methods_view(r) == semantics::methods_of(
                declarations@,
                closure,
                declarations@.len() as int,
            ),
            forall|k: Seq<char>| #[trigger]
                methods_view(r).contains_key(k) ==> methods_view(r)[k].closure == closure,
    {
        let mut methods: StringHashMap<LoxFunction<'a>> = StringHashMap::new();
        assert(methods_view(methods) =~= semantics::methods_of(declarations@, closure, 0));
        let init = String::from_str("init");
        let mut i: usize = 0;
        while i < declarations.len()
            invariant
                i <= declarations@.len(),
                init@ == "init"@,
                methods_view(methods) == semantics::methods_of(declarations@, closure, i as int),
                forall|k: Seq<char>| #[trigger]
                    methods_view(methods).contains_key(k) ==> methods_view(methods)[k].closure
                        == closure,
            decreases declarations@.len() - i,
        {
            let declaration = &declarations[i];
            let is_initializer = declaration.name.token_value == init;
            let ghost before = methods_view(methods);
            let method = LoxFunction { declaration, closure, is_initializer };
            methods.insert(declaration.name.token_value.clone(), method);
            assert(methods_view(methods) =~= before.insert(
                declaration.name.token_value@,
                method@,
            ));
            i += 1;
        }
        methods
    }

    /// Make a class and bind its name to it.
    pub fn make_class(
        &mut self,
        statement: &'a ClassStatement,
        superclass: Option<usize>,
    ) -> (r: Action)
        requires
            old(self).wf(),
            match superclass {
                Some(parent) => parent < old(self)@.heap.classes.len(),
                None => true,
            },
        ensures
            final(self).wf(),
            (final(self)@, r@) == semantics::make_class(old(self)@, *statement, superclass),
    {
        let at = self.environment;
        let closure = match superclass {
            Some(parent) => {
                let scope = self.heap.extend(at);
                self.heap.define(scope, "super".to_owned(), LiteralValue::LoxClass(parent));
                scope
            },
            None => at,
        };
        let methods = Self::methods_of(&statement.methods, closure);
        let class = LoxClass { name: statement.name.token_value.clone(), methods, superclass };
        assert(class@.methods == methods_view(methods));
        let handle = self.heap.add_class(class);
        self.heap.define(at, statement.name.token_value.clone(), LiteralValue::LoxClass(handle));
        proof {
            semantics::growing_keeps_well_formed(old(self)@, self@.heap);
        }
        self.complete(None)
    }

    /// The host's answer becomes the value that was asked for. Without an
    /// answer that fits, the request is made again.
    pub fn receive(&mut self, request: Request, reply: Option<LiteralValue>) -> (r: Action)
        requires
            old(self).wf(),
            old(self)@.control == ControlView::Awaiting(request@),
        ensures
            final(self).wf(),
            (final(self)@, r@) == semantics::receive(
                old(self)@,
                request@,
                optional_value_view(reply),
            ),
    {
        match reply {
            Some(value) => {
                let fits = match (&request, &value) {
                    (Request::Compare(_, _, _), LiteralValue::Boolean(_)) => true,
                    (Request::Compare(_, _, _), _) => false,
                    (_, LiteralValue::Number(_)) => true,
                    _ => false,
                };
                if fits {
                    self.produce(value)
                } else {
                    Action::Ask(request)
                }
            },
            None => Action::Ask(request),
        }
    }

    /// Take one step. The reply is the host's answer to the request of the
    /// step before, if that step made one. Where nothing in the machine
    /// declares or assigns a name `this`, nothing does after the step.
    pub fn step(&mut self, reply: Option<LiteralValue>) -> (r: Action)
        requires
            old(self).wf(),
        ensures
            final(self).wf(),
            (final(self)@, r@) == semantics::step(old(self)@, optional_value_view(reply)),
            plain(old(self)@) ==> plain(final(self)@),
    {
        proof {
            if plain(self@) {
                step_is_plain(self@, optional_value_view(reply));
            }
        }
        match &self.control {
            Control::Evaluate(e) => {
                let e: &'a Expression = *e;
                self.evaluate(e)
            },
            Control::Execute(s) => {
                let s: &'a Statement = *s;
                self.execute(s)
            },
            Control::Value(value) => {
                let value = value.clone();
                self.resume(value)
            },
            Control::Completed(carried) => {
                let carried = match carried {
                    Some(value) => Some(value.clone()),
                    None => None,
                };
                self.finish(carried)
            },
            Control::Awaiting(request) => {
                let request = request.clone();
                self.receive(request, reply)
            },
            Control::Finished => Action::Done,
            Control::Failed(error) => Action::Fail(error.clone()),
        }
    }

    /// An interpreter at the start of a program, with the resolver's
    /// side-table for it. Where the program neither declares nor assigns a
    /// name `this`, as every program that was parsed from text, nothing in
    /// the machine does.
    pub fn new(program: &'a Vec<Statement>, locals: HashMap<u64, usize>) -> (r: Interpreter<'a>)
        ensures
            r.wf(),
            r@ == semantics::start(program@, locals@),
            plain_statements(program@, 0) ==> plain(r@),
    {
        let mut frames: Vec<Frame<'a>> = Vec::new();
        frames.push(Frame::Sequence(program, 0));
        let mut r = Interpreter {
            control: Control::Completed(None),
            frames,
            environment: GLOBALS,
            heap: Heap::new(),
            locals,
        };
        assert(r@.frames =~= seq![FrameView::Sequence(program@, 0)]);
        r.define_globals();
        assert(r@.heap.environments =~= semantics::start(program@, locals@).heap.environments) by {
            assert(r@.heap.environments[0].values =~= map!["clock"@ => ValueView::Clock]);
        }
        assert(r@.heap.functions =~= Seq::empty());
        assert(r@.heap.classes =~= Seq::empty());
        assert(r@.heap.instances =~= Seq::empty());
        r
    }

    /// Whether the program has run to its end or failed.
    pub fn is_done(&self) -> (r: bool)
        ensures
            r == (self@.control is Finished || self@.control is Failed),
    {
        match &self.control {
            Control::Finished => true,
            Control::Failed(_) => true,
            _ => false,
        }
    }
}

impl<'a> Interpreter<'a> {
    /// An interpreter at the start of the evaluation of one expression.
    /// The value is there when [`Interpreter::result`] finds it.
    pub fn evaluating(expression: &'a Expression, locals: HashMap<u64, usize>) -> (r: Interpreter<
        'a,
    >)
        ensures
            r.wf(),
            r@ == semantics::start_expression(*expression, locals@),
    {
        let none: Vec<Statement> = Vec::new();
        let mut r = Interpreter {
            control: Control::Evaluate(expression),
            frames: Vec::new(),
            environment: GLOBALS,
            heap: Heap::new(),
            locals,
        };
        assert(r@.frames =~= Seq::empty());
        r.define_globals();
        assert(r@.heap.environments =~= semantics::start(none@, locals@).heap.environments) by {
            assert(r@.heap.environments[0].values =~= map!["clock"@ => ValueView::Clock]);
        }
        assert(r@.heap.functions =~= Seq::empty());
        assert(r@.heap.classes =~= Seq::empty());
        assert(r@.heap.instances =~= Seq::empty());
        r
    }

    /// The value that the machine has come to, if it has come to one and
    /// no frame waits for it.
    pub fn result(&self) -> (r: Option<LiteralValue>)
        ensures
            optional_value_view(r) == semantics::result(self@),
    {
        match &self.control {
            Control::Value(value) => {
                if self.frames.len() == 0 {
                    Some(value.clone())
                } else {
                    None
                }
            },
            _ => None,
        }
    }

    /// Whether the machine has come to a value that no frame waits for.
    pub fn has_result(&self) -> (r: bool)
        ensures
            r == (semantics::result(self@) is Some),
    {
        match &self.control {
            Control::Value(_) => self.frames.len() == 0,
            _ => false,
        }
    }
}

impl Action {
    /// Whether the action asks nothing of the host but the next step.
    pub fn is_continue(&self) -> (r: bool)
        ensures
            r == (self@ is Continue),
    {
        match self {
            Action::Continue => true,
            _ => false,
        }
    }
}

/// The rules of the evaluator: what is done at each kind of node once its
/// parts are values, how an expression and a statement are begun, and what
/// the evaluator decides of values. Each method takes one step of the
/// machine, as the semantics give it.
pub trait InterpreterTrait<'a> {
    /// The machine that the rules work on.
    spec fn machine(&self) -> MachineView;

    /// The invariant of the machine.
    spec fn sound(&self) -> bool;

    /// Bind the native functions in the globals.
    fn define_globals(&mut self)
        requires
            old(self).sound(),
        ensures
            final(self).sound(),
            final(self).machine() == semantics::with_environments(
                old(self).machine(),
                environment::define(
                    old(self).machine().heap.environments,
                    GLOBALS as int,
                    "clock"@,
                    ValueView::Clock,
                ),
            ),
    ;

    /// A binary operator on the values of its operands.
    fn visit_binary_expression(
        &mut self,
        expression: &'a BinaryExpression,
        left: LiteralValue,
        right: LiteralValue,
    ) -> (r: Action)
        requires
            old(self).sound(),
        ensures
            final(self).sound(),
            (final(self).machine(), r@) == semantics::visit_binary_expression(
                old(self).machine(),
                *expression,
                left@,
                right@,
            ),
    ;

    /// A unary operator on the value of its operand.
    fn visit_unary_expression(
        &mut self,
        expression: &'a UnaryExpression,
        operand: LiteralValue,
    ) -> (r: Action)
        requires
            old(self).sound(),
        ensures
            final(self).sound(),
            (final(self).machine(), r@) == semantics::visit_unary_expression(
                old(self).machine(),
                *expression,
                operand@,
            ),
    ;

    /// A logical operator on the value of its left operand.
    fn visit_logical_expression(
        &mut self,
        expression: &'a LogicalExpression,
        left: LiteralValue,
    ) -> (r: Action)
        requires
            old(self).sound(),
        ensures
            final(self).sound(),
            (final(self).machine(), r@) == semantics::visit_logical_expression(
                old(self).machine(),
                *expression,
                left@,
            ),
    ;

    /// `print` writes the value as a line of output.
    fn visit_print_statement(&mut self, value: LiteralValue) -> (r: Action)
        requires
            old(self).sound(),
        ensures
            final(self).sound(),
            (final(self).machine(), r@) == semantics::visit_print_statement(old(self).machine(), value@),
    ;

    /// An expression statement drops the value.
    fn visit_expression_statement(&mut self) -> (r: Action)
        requires
            old(self).sound(),
        ensures
            final(self).sound(),
            (final(self).machine(), r@) == semantics::complete(old(self).machine(), None),
    ;

    /// A variable declaration binds the name to the value.
    fn visit_variable_statement(
        &mut self,
        statement: &'a VariableStatement,
        value: LiteralValue,
    ) -> (r: Action)
        requires
            old(self).sound(),
        ensures
            final(self).sound(),
            (final(self).machine(), r@) == semantics::visit_variable_statement(
                old(self).machine(),
                *statement,
                value@,
            ),
    ;

    /// A parenthesized expression is what it holds.
    fn visit_grouping(&mut self, expression: &'a Grouping) -> (r: Action)
        requires
            old(self).sound(),
        ensures
            final(self).sound(),
            (final(self).machine(), r@) == semantics::goto(
                old(self).machine(),
                ControlView::Evaluate(*expression.expression),
            ),
    ;

    /// A constant is its value; for a number the host is asked what number
    /// the numeral stands for.
    fn visit_literal(&mut self, expression: &'a Literal) -> (r: Action)
        requires
            old(self).sound(),
        ensures
            final(self).sound(),
            (final(self).machine(), r@) == semantics::visit_literal(old(self).machine(), expression.value@),
    ;

    /// Begin to evaluate an expression.
    fn evaluate(&mut self, expression: &'a Expression) -> (r: Action)
        requires
            old(self).sound(),
        ensures
            final(self).sound(),
            (final(self).machine(), r@) == semantics::evaluate(old(self).machine(), *expression),
    ;

    /// Whether a value counts as true in a condition.
    fn is_truthy(&self, value: &LiteralValue) -> (r: bool)
        ensures
            r == truthy(value@),
    ;

    /// Whether two values are equal in the language's sense, where that
    /// can be told without arithmetic; `None` of two numbers that are
    /// written differently.
    fn is_equal(&self, left: &LiteralValue, right: &LiteralValue) -> (r: Option<bool>)
        ensures
            r == equality(left@, right@),
    ;

    /// Begin to execute a statement.
    fn execute(&mut self, statement: &'a Statement) -> (r: Action)
        requires
            old(self).sound(),
        ensures
            final(self).sound(),
            (final(self).machine(), r@) == semantics::execute(old(self).machine(), *statement),
    ;

    /// Run the statements of a list in order, in the current environment.
    fn execute_block(&mut self, statements: &'a Vec<Statement>) -> (r: Action)
        requires
            old(self).sound(),
        ensures
            final(self).sound(),
            (final(self).machine(), r@) == semantics::push(
                old(self).machine(),
                FrameView::Sequence(statements@, 0),
                ControlView::Completed(None),
            ),
    ;

    /// The runtime error for a message at a token.
    fn error(&self, message: RuntimeMessage, token: &Token) -> (r: RuntimeError)
        ensures
            r == (RuntimeError { message, token: *token }),
    ;

    /// Take steps until one asks something of the host or comes to the
    /// value of the whole, or until `budget` steps were taken after the
    /// first. The reply is the host's answer to the request of the step
    /// before, if that step made one.
    fn interpret(&mut self, reply: Option<LiteralValue>, budget: usize) -> (r: Action)
        requires
            old(self).sound(),
        ensures
            final(self).sound(),
            (final(self).machine(), r@) == semantics::run(
                old(self).machine(),
                optional_value_view(reply),
                budget as nat,
            ),
    ;

    /// A read of a name.
    fn visit_variable_expression(&mut self, expression: &'a VariableExpression) -> (r: Action)
        requires
            old(self).sound(),
        ensures
            final(self).sound(),
            (final(self).machine(), r@) == semantics::visit_variable_expression(
                old(self).machine(),
                expression.id,
                expression.variable,
            ),
    ;

    /// A call, once the callee and the arguments are values.
    fn visit_call_expression(
        &mut self,
        expression: &'a CallExpression,
        callee: LiteralValue,
        arguments: Vec<LiteralValue>,
    ) -> (r: Action)
        requires
            old(self).sound(),
        ensures
            final(self).sound(),
            (final(self).machine(), r@) == semantics::visit_call_expression(
                old(self).machine(),
                *expression,
                callee@,
                values_view(arguments@),
            ),
    ;

    /// An assignment of a value to a name.
    fn visit_assignment_expression(
        &mut self,
        expression: &'a AssignmentExpression,
        value: LiteralValue,
    ) -> (r: Action)
        requires
            old(self).sound(),
        ensures
            final(self).sound(),
            (final(self).machine(), r@) == semantics::visit_assignment_expression(
                old(self).machine(),
                *expression,
                value@,
            ),
    ;

    /// A block runs its statements in a fresh environment below the
    /// current one.
    fn visit_block_statement(&mut self, statement: &'a BlockStatement) -> (r: Action)
        requires
            old(self).sound(),
        ensures
            final(self).sound(),
            (final(self).machine(), r@) == semantics::visit_block_statement(old(self).machine(), *statement),
    ;

    /// `if` runs the branch that the value of the condition selects.
    fn visit_if_statement(
        &mut self,
        statement: &'a IfStatement,
        condition: LiteralValue,
    ) -> (r: Action)
        requires
            old(self).sound(),
        ensures
            final(self).sound(),
            (final(self).machine(), r@) == semantics::visit_if_statement(
                old(self).machine(),
                *statement,
                condition@,
            ),
    ;

    /// `while` runs its body if the value of the condition is truthy.
    fn visit_while_statement(
        &mut self,
        statement: &'a WhileStatement,
        condition: LiteralValue,
    ) -> (r: Action)
        requires
            old(self).sound(),
        ensures
            final(self).sound(),
            (final(self).machine(), r@) == semantics::visit_while_statement(
                old(self).machine(),
                *statement,
                condition@,
            ),
    ;

    /// A function declaration binds the name to a new function whose
    /// closure is the current environment.
    fn visit_function_statement(&mut self, statement: &'a FunctionStatement) -> (r: Action)
        requires
            old(self).sound(),
        ensures
            final(self).sound(),
            (final(self).machine(), r@) == semantics::visit_function_statement(old(self).machine(), *statement),
    ;

    /// `return` carries the value of its expression, or `nil`, out of the
    /// function.
    fn visit_return_statement(&mut self, statement: &'a ReturnStatement) -> (r: Action)
        requires
            old(self).sound(),
        ensures
            final(self).sound(),
            (final(self).machine(), r@) == semantics::visit_return_statement(old(self).machine(), *statement),
    ;

    /// A class declaration.
    fn visit_class_statement(&mut self, statement: &'a ClassStatement) -> (r: Action)
        requires
            old(self).sound(),
        ensures
            final(self).sound(),
            (final(self).machine(), r@) == semantics::visit_class_statement(old(self).machine(), *statement),
    ;

    /// A read of a property of the value of the object.
    fn visit_get_expression(
        &mut self,
        expression: &'a GetExpression,
        object: LiteralValue,
    ) -> (r: Action)
        requires
            old(self).sound(),
        ensures
            final(self).sound(),
            (final(self).machine(), r@) == semantics::visit_get_expression(
                old(self).machine(),
                *expression,
                object@,
            ),
    ;

    /// A write of a value to a property of an instance.
    fn visit_set_expression(
        &mut self,
        expression: &'a SetExpression,
        instance: usize,
        value: LiteralValue,
    ) -> (r: Action)
        requires
            old(self).sound(),
        ensures
            final(self).sound(),
            (final(self).machine(), r@) == semantics::visit_set_expression(
                old(self).machine(),
                *expression,
                instance,
                value@,
            ),
    ;

    /// A read of `this`.
    fn visit_this_expression(&mut self, expression: &'a ThisExpression) -> (r: Action)
        requires
            old(self).sound(),
        ensures
            final(self).sound(),
            (final(self).machine(), r@) == semantics::visit_variable_expression(
                old(self).machine(),
                expression.id,
                expression.value,
            ),
    ;

    /// `super.method`: the method of the superclass, bound to `this`.
    fn visit_super_expression(&mut self, expression: &'a SuperExpression) -> (r: Action)
        requires
            old(self).sound(),
        ensures
            final(self).sound(),
            (final(self).machine(), r@) == semantics::visit_super_expression(old(self).machine(), *expression),
    ;

    /// The value of a name for a reference.
    fn look_up_variable(&self, id: u64, name: &Token) -> (r: Option<LiteralValue>)
        requires
            self.sound(),
        ensures
            optional_value_view(r) == semantics::look_up_variable(self.machine(), id, *name),
    ;

    /// Record the depth of a reference in the side-table.
    fn resolve(&mut self, id: u64, depth: usize)
        requires
            old(self).sound(),
        ensures
            final(self).sound(),
            final(self).machine() == (MachineView {
                locals: old(self).machine().locals.insert(id, depth),
                ..old(self).machine()
            }),
    ;
}

impl<'a> InterpreterTrait<'a> for Interpreter<'a> {
    open spec fn machine(&self) -> MachineView {
        self@
    }

    open spec fn sound(&self) -> bool {
        self.wf()
    }

    fn define_globals(&mut self) {
        self.heap.define(GLOBALS, "clock".to_owned(), LiteralValue::Clock(Clock {  }));
        proof {
            semantics::growing_keeps_well_formed(old(self)@, self@.heap);
        }
    }

    fn visit_binary_expression(
        &mut self,
        expression: &'a BinaryExpression,
        left: LiteralValue,
        right: LiteralValue,
    ) -> (r: Action) {
        let operator = expression.operator.token_type;
        match operator {
            TokenType::MINUS | TokenType::STAR | TokenType::SLASH => match (left, right) {
                (LiteralValue::Number(a), LiteralValue::Number(b)) => self.ask(
                    Request::Arithmetic(operator, a, b),
                ),
                _ => self.fail(RuntimeMessage::OperandsMustBeNumbers, &expression.operator),
            },
            TokenType::PLUS => match (left, right) {
                (LiteralValue::Number(a), LiteralValue::Number(b)) => self.ask(
                    Request::Arithmetic(operator, a, b),
                ),
                (LiteralValue::String(a), LiteralValue::String(b)) => self.produce(
                    LiteralValue::String(a.concat(b.as_str())),
                ),
                _ => self.fail(
                    RuntimeMessage::OperandsMustBeTwoNumbersOrTwoStrings,
                    &expression.operator,
                ),
            },
            TokenType::GREATER
            | TokenType::GREATER_EQUAL
            | TokenType::LESS
            | TokenType::LESS_EQUAL => match (left, right) {
                (LiteralValue::Number(a), LiteralValue::Number(b)) => self.ask(
                    Request::Compare(operator, a, b),
                ),
                _ => self.fail(RuntimeMessage::OperandsMustBeNumbers, &expression.operator),
            },
            TokenType::EQUAL_EQUAL | TokenType::BANG_EQUAL => match self.is_equal(&left, &right) {
                Some(equal) => self.produce(
                    LiteralValue::Boolean(equal == (operator == TokenType::EQUAL_EQUAL)),
                ),
                None => match (left, right) {
                    (LiteralValue::Number(a), LiteralValue::Number(b)) => self.ask(
                        Request::Compare(operator, a, b),
                    ),
                    _ => unreached(),
                },
            },
            _ => self.fail(RuntimeMessage::UnknownOperator, &expression.operator),
        }
    }

    fn visit_unary_expression(
        &mut self,
        expression: &'a UnaryExpression,
        operand: LiteralValue,
    ) -> (r: Action) {
        match expression.operator.token_type {
            TokenType::MINUS => match operand {
                LiteralValue::Number(a) => self.ask(Request::Negate(a)),
                _ => self.fail(RuntimeMessage::OperandMustBeANumber, &expression.operator),
            },
            TokenType::BANG => {
                let negated = !self.is_truthy(&operand);
                self.produce(LiteralValue::Boolean(negated))
            },
            _ => self.fail(RuntimeMessage::UnknownOperator, &expression.operator),
        }
    }

    fn visit_logical_expression(
        &mut self,
        expression: &'a LogicalExpression,
        left: LiteralValue,
    ) -> (r: Action) {
        if (expression.operator.token_type == TokenType::OR) == self.is_truthy(&left) {
            self.produce(left)
        } else {
            self.goto(Control::Evaluate(&*expression.right))
        }
    }

    fn visit_print_statement(&mut self, value: LiteralValue) -> (r: Action) {
        let text = self.heap.printed(&value);
        self.control = Control::Completed(None);
        Action::Print(text)
    }

    fn visit_expression_statement(&mut self) -> (r: Action) {
        self.complete(None)
    }

    fn visit_variable_statement(
        &mut self,
        statement: &'a VariableStatement,
        value: LiteralValue,
    ) -> (r: Action) {
        let at = self.environment;
        self.heap.define(at, statement.name.token_value.clone(), value);
        proof {
            semantics::growing_keeps_well_formed(old(self)@, self@.heap);
        }
        self.complete(None)
    }

    fn visit_grouping(&mut self, expression: &'a Grouping) -> (r: Action) {
        self.goto(Control::Evaluate(&*expression.expression))
    }

    fn visit_literal(&mut self, expression: &'a Literal) -> (r: Action) {
        match &expression.value {
            LiteralValue::Number(numeral) => self.ask(Request::Numeral(numeral.clone())),
            value => self.produce(value.clone()),
        }
    }

    fn evaluate(&mut self, expression: &'a Expression) -> (r: Action) {
        expression.interpret(self)
    }

    fn is_truthy(&self, value: &LiteralValue) -> (r: bool) {
        value.is_truthy()
    }

    fn is_equal(&self, left: &LiteralValue, right: &LiteralValue) -> (r: Option<bool>) {
        left.is_equal(right)
    }

    fn execute(&mut self, statement: &'a Statement) -> (r: Action) {
        statement.interpret(self)
    }

    fn execute_block(&mut self, statements: &'a Vec<Statement>) -> (r: Action) {
        self.push(Frame::Sequence(statements, 0), Control::Completed(None))
    }

    fn error(&self, message: RuntimeMessage, token: &Token) -> (r: RuntimeError) {
        RuntimeError { message, token: token.clone() }
    }

    fn interpret(&mut self, reply: Option<LiteralValue>, budget: usize) -> (r: Action) {
        let mut action = self.step(reply);
        let mut left = budget;
        while left > 0 && action.is_continue() && !self.has_result()
            invariant
                self.wf(),
                semantics::run(old(self)@, optional_value_view(reply), budget as nat) == if action@
                    is Continue && left > 0 && semantics::result(self@) is None {
                    semantics::run(self@, None, (left - 1) as nat)
                } else {
                    (self@, action@)
                },
            decreases left,
        {
            action = self.step(None);
            left -= 1;
        }
        action
    }

    fn visit_variable_expression(&mut self, expression: &'a VariableExpression) -> (r: Action) {
        match self.look_up_variable(expression.id, &expression.variable) {
            Some(value) => self.produce(value),
            None => self.fail(RuntimeMessage::UndefinedVariable, &expression.variable),
        }
    }

    fn visit_call_expression(
        &mut self,
        expression: &'a CallExpression,
        callee: LiteralValue,
        arguments: Vec<LiteralValue>,
    ) -> (r: Action) {
        callee.call(self, &expression.paren, arguments)
    }

    fn visit_assignment_expression(
        &mut self,
        expression: &'a AssignmentExpression,
        value: LiteralValue,
    ) -> (r: Action) {
        let start = self.environment;
        let stored = match self.locals.get(&expression.id) {
            Some(depth) => {
                let depth = *depth;
                self.heap.environments.assign_at(start, depth, &expression.name, value.clone())
            },
            None => Environment::assign(
                &mut self.heap.environments,
                GLOBALS,
                &expression.name,
                value.clone(),
            ),
        };
        match stored {
            Ok(_) => {
                proof {
                    let before = old(self)@.heap.environments;
                    environment::holder_in_range(
                        before,
                        GLOBALS as int,
                        expression.name.token_value@,
                    );
                    if old(self)@.locals.contains_key(expression.id) {
                        environment::ancestor_in_range(
                            before,
                            start as int,
                            old(self)@.locals[expression.id] as nat,
                        );
                    }
                    assert(semantics::same_shape(before, self@.heap.environments));
                    semantics::storing_keeps_well_formed(old(self)@, self@.heap.environments);
                }
                self.produce(value)
            },
            Err(_) => self.fail(RuntimeMessage::UndefinedVariable, &expression.name),
        }
    }

    fn visit_block_statement(&mut self, statement: &'a BlockStatement) -> (r: Action) {
        let saved = self.environment;
        let at = self.heap.extend(saved);
        proof {
            semantics::growing_keeps_well_formed(old(self)@, self@.heap);
        }
        self.frames.push(Frame::Scope(saved));
        self.frames.push(Frame::Sequence(&statement.statements, 0));
        self.environment = at;
        self.control = Control::Completed(None);
        assert(self@.frames =~= old(self)@.frames.push(FrameView::Scope(saved)).push(
            FrameView::Sequence(statement.statements@, 0),
        ));
        Action::Continue
    }

    fn visit_if_statement(
        &mut self,
        statement: &'a IfStatement,
        condition: LiteralValue,
    ) -> (r: Action) {
        if self.is_truthy(&condition) {
            self.goto(Control::Execute(&*statement.then_statement))
        } else {
            match &statement.else_statement {
                Some(other) => self.goto(Control::Execute(&**other)),
                None => self.complete(None),
            }
        }
    }

    fn visit_while_statement(
        &mut self,
        statement: &'a WhileStatement,
        condition: LiteralValue,
    ) -> (r: Action) {
        if self.is_truthy(&condition) {
            self.push(Frame::WhileBody(statement), Control::Execute(&*statement.body))
        } else {
            self.complete(None)
        }
    }

    fn visit_function_statement(&mut self, statement: &'a FunctionStatement) -> (r: Action) {
        let at = self.environment;
        let function = LoxFunction { declaration: statement, closure: at, is_initializer: false };
        let handle = self.heap.add_function(function);
        self.heap.define(at, statement.name.token_value.clone(), LiteralValue::Function(handle));
        proof {
            semantics::growing_keeps_well_formed(old(self)@, self@.heap);
        }
        self.complete(None)
    }

    fn visit_return_statement(&mut self, statement: &'a ReturnStatement) -> (r: Action) {
        match &statement.value {
            Some(e) => self.push(Frame::Return, Control::Evaluate(e)),
            None => self.complete(Some(LiteralValue::Nil)),
        }
    }

    fn visit_class_statement(&mut self, statement: &'a ClassStatement) -> (r: Action) {
        let at = self.environment;
        self.heap.define(at, statement.name.token_value.clone(), LiteralValue::Nil);
        proof {
            semantics::growing_keeps_well_formed(old(self)@, self@.heap);
        }
        match &statement.super_class {
            Some(v) => match self.look_up_variable(v.id, &v.variable) {
                Some(LiteralValue::LoxClass(parent)) => {
                    if parent < self.heap.classes.len() {
                        self.make_class(statement, Some(parent))
                    } else {
                        self.fail(RuntimeMessage::SuperclassMustBeAClass, &v.variable)
                    }
                },
                Some(_) => self.fail(RuntimeMessage::SuperclassMustBeAClass, &v.variable),
                None => self.fail(RuntimeMessage::UndefinedVariable, &v.variable),
            },
            None => self.make_class(statement, None),
        }
    }

    fn visit_get_expression(
        &mut self,
        expression: &'a GetExpression,
        object: LiteralValue,
    ) -> (r: Action) {
        match object {
            LiteralValue::Instance(i) => {
                if i < self.heap.instances.len() {
                    match self.heap.get(i, &expression.name) {
                        Some(value) => self.produce(value),
                        None => self.fail(RuntimeMessage::UndefinedProperty, &expression.name),
                    }
                } else {
                    self.fail(RuntimeMessage::OnlyInstancesHaveProperties, &expression.name)
                }
            },
            _ => self.fail(RuntimeMessage::OnlyInstancesHaveProperties, &expression.name),
        }
    }

    fn visit_set_expression(
        &mut self,
        expression: &'a SetExpression,
        instance: usize,
        value: LiteralValue,
    ) -> (r: Action) {
        if instance < self.heap.instances.len() {
            self.heap.set(instance, &expression.name, value.clone());
            proof {
                semantics::growing_keeps_well_formed(old(self)@, self@.heap);
            }
            self.produce(value)
        } else {
            self.fail(RuntimeMessage::OnlyInstancesHaveProperties, &expression.name)
        }
    }

    fn visit_this_expression(&mut self, expression: &'a ThisExpression) -> (r: Action) {
        match self.look_up_variable(expression.id, &expression.value) {
            Some(value) => self.produce(value),
            None => self.fail(RuntimeMessage::UndefinedVariable, &expression.value),
        }
    }

    fn visit_super_expression(&mut self, expression: &'a SuperExpression) -> (r: Action) {
        let depth = match self.locals.get(&expression.id) {
            Some(depth) => *depth,
            None => {
                return self.fail(RuntimeMessage::UndefinedVariable, &expression.keyword);
            },
        };
        if depth == 0 {
            return self.fail(RuntimeMessage::UndefinedVariable, &expression.keyword);
        }
        let superclass = self.heap.environments.get_at(self.environment, depth, "super");
        let object = self.heap.environments.get_at(self.environment, depth - 1, "this");
        match (superclass, object) {
            (Some(LiteralValue::LoxClass(class)), Some(LiteralValue::Instance(instance))) => {
                if class >= self.heap.classes.len() {
                    return self.fail(RuntimeMessage::UndefinedProperty, &expression.method);
                }
                proof {
                    heap::found_method_fits(self@.heap, class as int, expression.method.token_value@);
                }
                match LoxClass::find_method(
                    &self.heap.classes,
                    class,
                    expression.method.token_value.as_str(),
                ) {
                    Some(method) => {
                        let value = self.heap.bound_method(method, instance);
                        self.produce(value)
                    },
                    None => self.fail(RuntimeMessage::UndefinedProperty, &expression.method),
                }
            },
            _ => self.fail(RuntimeMessage::UndefinedVariable, &expression.keyword),
        }
    }

    fn look_up_variable(&self, id: u64, name: &Token) -> (r: Option<LiteralValue>) {
        match self.locals.get(&id) {
            Some(depth) => self.heap.environments.get_at(
                self.environment,
                *depth,
                name.token_value.as_str(),
            ),
            None => Environment::get(&self.heap.environments, GLOBALS, name.token_value.as_str()),
        }
    }

    fn resolve(&mut self, id: u64, depth: usize) {
        self.locals.insert(id, depth);
    }
}

impl Expression {
    /// Begin to evaluate the expression: hand it to the interpreter's
    /// method for its kind, or put the frame on top that waits for its
    /// first part.
    pub fn interpret<'a>(&'a self, interpreter: &mut Interpreter<'a>) -> (r: Action)
        requires
            old(interpreter).wf(),
        ensures
            final(interpreter).wf(),
            (final(interpreter)@, r@) == semantics::evaluate(old(interpreter)@, *self),
    {
        match self {
            Expression::Literal(n) => interpreter.visit_literal(n),
            Expression::Grouping(n) => interpreter.visit_grouping(n),
            Expression::Unary(n) => interpreter.push(Frame::Unary(n), Control::Evaluate(&*n.expression)),
            Expression::Binary(n) => interpreter.push(Frame::BinaryLeft(n), Control::Evaluate(&*n.left)),
            Expression::Logical(n) => interpreter.push(Frame::Logical(n), Control::Evaluate(&*n.left)),
            Expression::Variable(n) => interpreter.visit_variable_expression(n),
            Expression::Assignment(n) => interpreter.push(Frame::Assign(n), Control::Evaluate(&*n.value)),
            Expression::Call(n) => interpreter.push(Frame::Callee(n), Control::Evaluate(&*n.callee)),
            Expression::Get(n) => interpreter.push(Frame::Get(n), Control::Evaluate(&*n.expression)),
            Expression::SetField(n) => interpreter.push(
                Frame::SetObject(n),
                Control::Evaluate(&*n.expression),
            ),
            Expression::This(n) => interpreter.visit_this_expression(n),
            Expression::Super(n) => interpreter.visit_super_expression(n),
        }
    }
}

impl Statement {
    /// Begin to execute the statement: hand it to the interpreter's method
    /// for its kind, or put the frame on top that waits for its first
    /// part.
    pub fn interpret<'a>(&'a self, interpreter: &mut Interpreter<'a>) -> (r: Action)
        requires
            old(interpreter).wf(),
        ensures
            final(interpreter).wf(),
            (final(interpreter)@, r@) == semantics::execute(old(interpreter)@, *self),
    {
        match self {
            Statement::Expression(n) => interpreter.push(
                Frame::Expression,
                Control::Evaluate(&n.expression),
            ),
            Statement::Print(n) => interpreter.push(Frame::Print, Control::Evaluate(&n.expression)),
            Statement::Variable(n) => match &n.initializer {
                Some(e) => interpreter.push(Frame::Variable(n), Control::Evaluate(e)),
                None => interpreter.visit_variable_statement(n, LiteralValue::Nil),
            },
            Statement::Block(n) => interpreter.visit_block_statement(n),
            Statement::If(n) => interpreter.push(Frame::If(n), Control::Evaluate(&n.condition)),
            Statement::While(n) => interpreter.push(
                Frame::WhileCondition(n),
                Control::Evaluate(&n.condition),
            ),
            Statement::Function(n) => interpreter.visit_function_statement(n),
            Statement::Return(n) => interpreter.visit_return_statement(n),
            Statement::Class(n) => interpreter.visit_class_statement(n),
        }
    }
}

} // verus!
