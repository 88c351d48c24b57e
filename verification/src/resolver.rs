//! The static resolver.
//!
//! Every method is proved to compute the function of the same name in
//! [`crate::scoping`]. The first static error ends the resolution.

use vstd::prelude::*;
use vstd::hash_map::StringHashMap;
use vstd::string::StringExecFns;
use std::collections::HashMap;
use crate::token::Token;
use crate::ast::{
    AssignmentExpression, BinaryExpression, BlockStatement, CallExpression, ClassStatement,
    Expression, ExpressionStatement, FunctionStatement, GetExpression, Grouping, IfStatement,
    Literal, LogicalExpression, PrintStatement, ReturnStatement, SetExpression, Statement,
    SuperExpression, ThisExpression, UnaryExpression, VariableExpression, VariableStatement,
    WhileStatement,
};
use crate::scoping;
use crate::text::{decimal, write_decimal, write_text};
use crate::scoping::{ClassType, FunctionType, Resolution, Resolved, ResolveError, ResolveMessage};

verus! {

broadcast use vstd::std_specs::hash::group_hash_axioms;

/// The resolver: the stack of open scopes, the kinds of the function and of
/// the class that it is inside of, and the side-table that it fills.
pub struct Resolver {
    pub scopes: Vec<StringHashMap<bool>>,
    pub current_function: FunctionType,
    pub current_class: ClassType,
    pub locals: HashMap<u64, usize>,
}

impl View for Resolver {
    type V = Resolution;

    open spec fn view(&self) -> Resolution {
        Resolution {
            scopes: Seq::new(self.scopes@.len(), |i: int| self.scopes@[i]@),
            locals: self.locals@,
            current_function: self.current_function,
            current_class: self.current_class,
        }
    }
}

/// Whether what the resolver did is what was expected of it: on success the
/// state that it is left in, on failure the error.
pub open spec fn agrees(
    r: Result<(), ResolveError>,
    after: Resolution,
    expected: Resolved,
) -> bool {
    match r {
        Ok(_) => expected == Ok::<Resolution, ResolveError>(after),
        Err(error) => expected == Err::<Resolution, ResolveError>(error),
    }
}

impl Resolver {
    /// A resolver outside every scope, function and class, with an empty
    /// side-table.
    pub fn new() -> (r: Resolver)
        ensures
            r@.scopes.len() == 0,
            r@.locals == Map::<u64, usize>::empty(),
            r@.current_function == FunctionType::NONE,
            r@.current_class == ClassType::NONE,
    {
        Resolver {
            scopes: Vec::new(),
            current_function: FunctionType::NONE,
            current_class: ClassType::NONE,
            locals: HashMap::new(),
        }
    }

    /// The error for a message at a token.
    pub fn error(&self, message: ResolveMessage, token: &Token) -> (r: ResolveError)
        ensures
            r == (ResolveError { token: *token, message }),
    {
        ResolveError { token: token.clone(), message }
    }

    /// Open a scope.
    pub fn begin_scope(&mut self)
        ensures
            final(self)@ == scoping::begin_scope(old(self)@),
    {
        self.scopes.push(StringHashMap::new());
        assert(self@.scopes =~= scoping::begin_scope(old(self)@).scopes);
    }

    /// Close the innermost scope.
    pub fn end_scope(&mut self)
        ensures
            final(self)@ == scoping::end_scope(old(self)@),
    {
        let _ = self.scopes.pop();
        assert(self@.scopes =~= scoping::end_scope(old(self)@).scopes);
    }

    /// Bind a name in the innermost scope.
    fn bind(&mut self, name: String, defined: bool)
        requires
            old(self).scopes@.len() > 0,
        ensures
            final(self)@ == scoping::bind(old(self)@, name@, defined),
    {
        let last = self.scopes.len() - 1;
        self.scopes[last].insert(name, defined);
        assert(self@.scopes =~= scoping::bind(old(self)@, name@, defined).scopes);
    }

    /// Declare a name in the innermost scope, not yet defined.
    pub fn declare(&mut self, name: &Token) -> (r: Result<(), ResolveError>)
        ensures
            agrees(r, final(self)@, scoping::declare(old(self)@, *name)),
    {
        let n = self.scopes.len();
        if n == 0 {
            return Ok(());
        }
        if self.scopes[n - 1].contains_key(name.token_value.as_str()) {
            return Err(self.error(ResolveMessage::AlreadyDeclared, name));
        }
        self.bind(name.token_value.clone(), false);
        Ok(())
    }

    /// Mark a name in the innermost scope as defined.
    pub fn define(&mut self, name: &Token)
        ensures
            final(self)@ == scoping::define(old(self)@, *name),
    {
        if self.scopes.len() > 0 {
            self.bind(name.token_value.clone(), true);
        }
    }

    /// Record the depth of a reference, if a scope binds its name.
    pub fn resolve_local(&mut self, id: u64, name: &Token)
        ensures
            final(self)@ == scoping::resolve_local(old(self)@, id, *name),
    {
        let n = self.scopes.len();
        let mut depth: usize = 0;
        while depth < n
            invariant
                *self == *old(self),
                n == self.scopes@.len(),
                depth <= n,
                scoping::innermost(self@.scopes, name.token_value@) == scoping::innermost_from(
                    self@.scopes,
                    name.token_value@,
                    depth as int,
                ),
            decreases n - depth,
        {
            if self.scopes[n - 1 - depth].contains_key(name.token_value.as_str()) {
                self.locals.insert(id, depth);
                return ;
            }
            depth += 1;
        }
    }

    /// Whether the innermost scope holds the name as declared but not yet
    /// defined.
    fn in_own_initializer(&self, name: &Token) -> (r: bool)
        ensures
            r == scoping::in_own_initializer(self@, name.token_value@),
    {
        let n = self.scopes.len();
        if n == 0 {
            return false;
        }
        match self.scopes[n - 1].get(name.token_value.as_str()) {
            Some(defined) => !*defined,
            None => false,
        }
    }

    /// A read of a name: an error in the name's own initializer, else resolved
    /// to the innermost scope that holds the name.
    pub fn visit_variable_expression(
        &mut self,
        expression: &VariableExpression,
    ) -> (r: Result<(), ResolveError>)
        ensures
            agrees(r, final(self)@, scoping::resolve_variable(old(self)@, *expression)),
    {
        if self.in_own_initializer(&expression.variable) {
            return Err(self.error(ResolveMessage::ReadInOwnInitializer, &expression.variable));
        }
        self.resolve_local(expression.id, &expression.variable);
        Ok(())
    }

    /// A constant: nothing to resolve.
    pub fn visit_literal_expression(
        &mut self,
        expression: &Literal,
    ) -> (r: Result<(), ResolveError>)
        ensures
            agrees(
                r,
                final(self)@,
                scoping::resolve_expression(old(self)@, Expression::Literal(*expression)),
            ),
    {
        Ok(())
    }

    /// A parenthesized expression: what it holds is resolved.
    pub fn visit_grouping_expression(
        &mut self,
        expression: &Grouping,
    ) -> (r: Result<(), ResolveError>)
        ensures
            agrees(
                r,
                final(self)@,
                scoping::resolve_expression(old(self)@, Expression::Grouping(*expression)),
            ),
        decreases expression,
    {
        expression.expression.resolve(self)
    }

    /// A unary operator: the operand is resolved.
    pub fn visit_unary_expression(
        &mut self,
        expression: &UnaryExpression,
    ) -> (r: Result<(), ResolveError>)
        ensures
            agrees(
                r,
                final(self)@,
                scoping::resolve_expression(old(self)@, Expression::Unary(*expression)),
            ),
        decreases expression,
    {
        expression.expression.resolve(self)
    }

    /// A binary operator: the left operand is resolved, then the right.
    pub fn visit_binary_expression(
        &mut self,
        expression: &BinaryExpression,
    ) -> (r: Result<(), ResolveError>)
        ensures
            agrees(
                r,
                final(self)@,
                scoping::resolve_expression(old(self)@, Expression::Binary(*expression)),
            ),
        decreases expression,
    {
        expression.left.resolve(self)?;
        expression.right.resolve(self)
    }

    /// A logical operator: the left operand is resolved, then the right.
    pub fn visit_logical_expression(
        &mut self,
        expression: &LogicalExpression,
    ) -> (r: Result<(), ResolveError>)
        ensures
            agrees(
                r,
                final(self)@,
                scoping::resolve_expression(old(self)@, Expression::Logical(*expression)),
            ),
        decreases expression,
    {
        expression.left.resolve(self)?;
        expression.right.resolve(self)
    }

    /// An assignment: the value is resolved, then the name.
    pub fn visit_assignment_expression(
        &mut self,
        expression: &AssignmentExpression,
    ) -> (r: Result<(), ResolveError>)
        ensures
            agrees(
                r,
                final(self)@,
                scoping::resolve_expression(old(self)@, Expression::Assignment(*expression)),
            ),
        decreases expression,
    {
        expression.value.resolve(self)?;
        self.resolve_local(expression.id, &expression.name);
        Ok(())
    }

    /// A call: the callee is resolved, then the arguments in order.
    pub fn visit_call_expression(
        &mut self,
        expression: &CallExpression,
    ) -> (r: Result<(), ResolveError>)
        ensures
            agrees(
                r,
                final(self)@,
                scoping::resolve_expression(old(self)@, Expression::Call(*expression)),
            ),
        decreases expression,
    {
        expression.callee.resolve(self)?;
        let ghost start = self@;
        let mut i: usize = 0;
        while i < expression.arguments.len()
            invariant
                i <= expression.arguments@.len(),
                scoping::resolve_expression(old(self)@, *expression.callee) == Ok::<
                    Resolution,
                    ResolveError,
                >(start),
                scoping::resolve_expressions(start, expression.arguments@, 0)
                    == scoping::resolve_expressions(self@, expression.arguments@, i as int),
            decreases expression.arguments@.len() - i,
        {
            expression.arguments[i].resolve(self)?;
            i += 1;
        }
        Ok(())
    }

    /// A read of a property: the object is resolved; the property is looked
    /// up at run time.
    pub fn visit_get_expression(
        &mut self,
        expression: &GetExpression,
    ) -> (r: Result<(), ResolveError>)
        ensures
            agrees(
                r,
                final(self)@,
                scoping::resolve_expression(old(self)@, Expression::Get(*expression)),
            ),
        decreases expression,
    {
        expression.expression.resolve(self)
    }

    /// A write to a property: the object is resolved, then the value.
    pub fn visit_set_expression(
        &mut self,
        expression: &SetExpression,
    ) -> (r: Result<(), ResolveError>)
        ensures
            agrees(
                r,
                final(self)@,
                scoping::resolve_expression(old(self)@, Expression::SetField(*expression)),
            ),
        decreases expression,
    {
        expression.expression.resolve(self)?;
        expression.value.resolve(self)
    }

    /// `this`: an error outside of a class, else resolved like a name.
    pub fn visit_this_expression(
        &mut self,
        expression: &ThisExpression,
    ) -> (r: Result<(), ResolveError>)
        ensures
            agrees(
                r,
                final(self)@,
                scoping::resolve_expression(old(self)@, Expression::This(*expression)),
            ),
    {
        if self.current_class == ClassType::NONE {
            return Err(self.error(ResolveMessage::ThisOutsideClass, &expression.value));
        }
        self.resolve_local(expression.id, &expression.value);
        Ok(())
    }

    /// `super`: an error outside of a class and in a class without a
    /// superclass, else resolved like a name.
    pub fn visit_super_expression(
        &mut self,
        expression: &SuperExpression,
    ) -> (r: Result<(), ResolveError>)
        ensures
            agrees(
                r,
                final(self)@,
                scoping::resolve_expression(old(self)@, Expression::Super(*expression)),
            ),
    {
        if self.current_class == ClassType::NONE {
            return Err(self.error(ResolveMessage::SuperOutsideClass, &expression.keyword));
        } else if self.current_class != ClassType::SUBCLASS {
            return Err(self.error(ResolveMessage::SuperWithoutSuperclass, &expression.keyword));
        }
        self.resolve_local(expression.id, &expression.keyword);
        Ok(())
    }
}

impl Expression {
    /// Resolve the expression: hand it to the resolver's method for its
    /// kind.
    pub fn resolve(&self, resolver: &mut Resolver) -> (r: Result<(), ResolveError>)
        ensures
            agrees(r, final(resolver)@, scoping::resolve_expression(old(resolver)@, *self)),
        decreases self,
    {
        match self {
            Expression::Literal(n) => resolver.visit_literal_expression(n),
            Expression::Grouping(n) => resolver.visit_grouping_expression(n),
            Expression::Unary(n) => resolver.visit_unary_expression(n),
            Expression::Binary(n) => resolver.visit_binary_expression(n),
            Expression::Logical(n) => resolver.visit_logical_expression(n),
            Expression::Variable(n) => resolver.visit_variable_expression(n),
            Expression::Assignment(n) => resolver.visit_assignment_expression(n),
            Expression::Call(n) => resolver.visit_call_expression(n),
            Expression::Get(n) => resolver.visit_get_expression(n),
            Expression::SetField(n) => resolver.visit_set_expression(n),
            Expression::This(n) => resolver.visit_this_expression(n),
            Expression::Super(n) => resolver.visit_super_expression(n),
        }
    }
}

impl Resolver {
    /// Resolve the statements of a list in order.
    pub fn resolve_statements(
        &mut self,
        statements: &Vec<Statement>,
    ) -> (r: Result<(), ResolveError>)
        ensures
            agrees(r, final(self)@, scoping::resolve_statements(old(self)@, statements@, 0)),
        decreases statements,
    {
        let mut i: usize = 0;
        while i < statements.len()
            invariant
                i <= statements@.len(),
                scoping::resolve_statements(old(self)@, statements@, 0)
                    == scoping::resolve_statements(self@, statements@, i as int),
            decreases statements@.len() - i,
        {
            statements[i].resolve(self)?;
            i += 1;
        }
        Ok(())
    }

    /// Resolve an optional expression.
    fn resolve_optional(&mut self, expression: &Option<Expression>) -> (r: Result<(), ResolveError>)
        ensures
            agrees(r, final(self)@, scoping::resolve_optional(old(self)@, *expression)),
        decreases expression,
    {
        match expression {
            Some(e) => e.resolve(self),
            None => Ok(()),
        }
    }

    /// Declare and define the parameters of a function.
    fn resolve_parameters(&mut self, parameters: &Vec<Token>) -> (r: Result<(), ResolveError>)
        ensures
            agrees(r, final(self)@, scoping::resolve_parameters(old(self)@, parameters@, 0)),
    {
        let mut i: usize = 0;
        while i < parameters.len()
            invariant
                i <= parameters@.len(),
                scoping::resolve_parameters(old(self)@, parameters@, 0)
                    == scoping::resolve_parameters(self@, parameters@, i as int),
            decreases parameters@.len() - i,
        {
            self.declare(&parameters[i])?;
            self.define(&parameters[i]);
            i += 1;
        }
        Ok(())
    }

    /// Resolve the body of a function in a scope of its own that holds the
    /// parameters.
    pub fn resolve_function(
        &mut self,
        statement: &FunctionStatement,
        kind: FunctionType,
    ) -> (r: Result<(), ResolveError>)
        ensures
            agrees(r, final(self)@, scoping::resolve_function(old(self)@, *statement, kind)),
        decreases statement, 0int,
    {
        let enclosing = self.current_function;
        self.current_function = kind;
        self.begin_scope();
        self.resolve_parameters(&statement.parameters)?;
        self.resolve_statements(&statement.body)?;
        self.end_scope();
        self.current_function = enclosing;
        Ok(())
    }

    /// A block: its statements are resolved in a scope of their own.
    pub fn visit_block_statement(
        &mut self,
        statement: &BlockStatement,
    ) -> (r: Result<(), ResolveError>)
        ensures
            agrees(
                r,
                final(self)@,
                scoping::resolve_statement(old(self)@, Statement::Block(*statement)),
            ),
        decreases statement,
    {
        self.begin_scope();
        self.resolve_statements(&statement.statements)?;
        self.end_scope();
        Ok(())
    }

    /// A variable declaration: the name is declared, the initializer resolved,
    /// and the name defined.
    pub fn visit_variable_statement(
        &mut self,
        statement: &VariableStatement,
    ) -> (r: Result<(), ResolveError>)
        ensures
            agrees(
                r,
                final(self)@,
                scoping::resolve_statement(old(self)@, Statement::Variable(*statement)),
            ),
        decreases statement,
    {
        self.declare(&statement.name)?;
        self.resolve_optional(&statement.initializer)?;
        self.define(&statement.name);
        Ok(())
    }

    /// A function declaration: the name is declared and defined, so that the
    /// function may call itself, and the function resolved.
    pub fn visit_function_statement(
        &mut self,
        statement: &FunctionStatement,
    ) -> (r: Result<(), ResolveError>)
        ensures
            agrees(
                r,
                final(self)@,
                scoping::resolve_statement(old(self)@, Statement::Function(*statement)),
            ),
        decreases statement, 1int,
    {
        self.declare(&statement.name)?;
        self.define(&statement.name);
        self.resolve_function(statement, FunctionType::FUNCTION)
    }

    /// An expression statement: the expression is resolved.
    pub fn visit_expression_statement(
        &mut self,
        statement: &ExpressionStatement,
    ) -> (r: Result<(), ResolveError>)
        ensures
            agrees(
                r,
                final(self)@,
                scoping::resolve_statement(old(self)@, Statement::Expression(*statement)),
            ),
        decreases statement,
    {
        statement.expression.resolve(self)
    }

    /// `if`: the condition is resolved, then the branches.
    pub fn visit_if_statement(&mut self, statement: &IfStatement) -> (r: Result<(), ResolveError>)
        ensures
            agrees(
                r,
                final(self)@,
                scoping::resolve_statement(old(self)@, Statement::If(*statement)),
            ),
        decreases statement,
    {
        statement.condition.resolve(self)?;
        statement.then_statement.resolve(self)?;
        match &statement.else_statement {
            Some(other) => other.resolve(self),
            None => Ok(()),
        }
    }

    /// `print`: the expression is resolved.
    pub fn visit_print_statement(
        &mut self,
        statement: &PrintStatement,
    ) -> (r: Result<(), ResolveError>)
        ensures
            agrees(
                r,
                final(self)@,
                scoping::resolve_statement(old(self)@, Statement::Print(*statement)),
            ),
        decreases statement,
    {
        statement.expression.resolve(self)
    }

    /// `return`: an error outside of a function, and with a value in an
    /// initializer; else the value is resolved.
    pub fn visit_return_statement(
        &mut self,
        statement: &ReturnStatement,
    ) -> (r: Result<(), ResolveError>)
        ensures
            agrees(
                r,
                final(self)@,
                scoping::resolve_statement(old(self)@, Statement::Return(*statement)),
            ),
        decreases statement,
    {
        if self.current_function == FunctionType::NONE {
            return Err(self.error(ResolveMessage::ReturnFromTopLevel, &statement.keyword));
        }
        if statement.value.is_some() && self.current_function == FunctionType::INITIALIZER {
            return Err(
                self.error(ResolveMessage::ReturnValueFromInitializer, &statement.keyword),
            );
        }
        self.resolve_optional(&statement.value)
    }

    /// `while`: the body is resolved, then the condition.
    pub fn visit_while_statement(
        &mut self,
        statement: &WhileStatement,
    ) -> (r: Result<(), ResolveError>)
        ensures
            agrees(
                r,
                final(self)@,
                scoping::resolve_statement(old(self)@, Statement::While(*statement)),
            ),
        decreases statement,
    {
        statement.body.resolve(self)?;
        statement.condition.resolve(self)
    }

    /// The kind of a method: an initializer if it is called `init`.
    fn method_kind(method: &FunctionStatement) -> (r: FunctionType)
        ensures
            r == scoping::method_kind(*method),
    {
        let init = String::from_str("init");
        if method.name.token_value == init {
            FunctionType::INITIALIZER
        } else {
            FunctionType::METHOD
        }
    }

    /// Resolve the methods of a class in order.
    fn resolve_methods(&mut self, methods: &Vec<FunctionStatement>) -> (r: Result<(), ResolveError>)
        ensures
            agrees(r, final(self)@, scoping::resolve_methods(old(self)@, methods@, 0)),
        decreases methods,
    {
        let mut i: usize = 0;
        while i < methods.len()
            invariant
                i <= methods@.len(),
                scoping::resolve_methods(old(self)@, methods@, 0) == scoping::resolve_methods(
                    self@,
                    methods@,
                    i as int,
                ),
            decreases methods@.len() - i,
        {
            let kind = Self::method_kind(&methods[i]);
            self.resolve_function(&methods[i], kind)?;
            i += 1;
        }
        Ok(())
    }

    /// Resolve the superclass of a class.
    fn resolve_superclass(
        &mut self,
        name: &Token,
        super_class: &Option<VariableExpression>,
    ) -> (r: Result<(), ResolveError>)
        ensures
            agrees(
                r,
                final(self)@,
                scoping::resolve_superclass(old(self)@, *name, *super_class),
            ),
    {
        match super_class {
            Some(v) => {
                if name.token_value == v.variable.token_value {
                    return Err(self.error(ResolveMessage::InheritFromItself, &v.variable));
                }
                self.visit_variable_expression(v)
            },
            None => Ok(()),
        }
    }

    /// Open the scopes in which the methods of a class are resolved.
    fn enter_class(&mut self, has_superclass: bool)
        ensures
            final(self)@ == scoping::enter_class(old(self)@, has_superclass),
    {
        if has_superclass {
            self.begin_scope();
            self.current_class = ClassType::SUBCLASS;
            self.bind(String::from_str("super"), true);
        }
        self.begin_scope();
        self.bind(String::from_str("this"), true);
    }

    /// A class declaration: the name is declared and defined, the superclass
    /// resolved, and the methods resolved in the scopes that hold `super` and
    /// `this`.
    pub fn visit_class_statement(
        &mut self,
        statement: &ClassStatement,
    ) -> (r: Result<(), ResolveError>)
        ensures
            agrees(
                r,
                final(self)@,
                scoping::resolve_statement(old(self)@, Statement::Class(*statement)),
            ),
        decreases statement,
    {
        assert(scoping::resolve_statement(old(self)@, Statement::Class(*statement))
            == scoping::resolve_class(old(self)@, *statement));
        let enclosing = self.current_class;
        self.current_class = ClassType::CLASS;
        self.declare(&statement.name)?;
        self.define(&statement.name);
        self.resolve_superclass(&statement.name, &statement.super_class)?;
        self.enter_class(statement.super_class.is_some());
        self.resolve_methods(&statement.methods)?;
        self.end_scope();
        if statement.super_class.is_some() {
            self.end_scope();
        }
        self.current_class = enclosing;
        Ok(())
    }
}

impl Statement {
    /// Resolve the statement: hand it to the resolver's method for its
    /// kind.
    pub fn resolve(&self, resolver: &mut Resolver) -> (r: Result<(), ResolveError>)
        ensures
            agrees(r, final(resolver)@, scoping::resolve_statement(old(resolver)@, *self)),
        decreases self,
    {
        match self {
            Statement::Expression(n) => resolver.visit_expression_statement(n),
            Statement::Print(n) => resolver.visit_print_statement(n),
            Statement::Variable(n) => resolver.visit_variable_statement(n),
            Statement::Block(n) => resolver.visit_block_statement(n),
            Statement::If(n) => resolver.visit_if_statement(n),
            Statement::While(n) => resolver.visit_while_statement(n),
            Statement::Function(n) => resolver.visit_function_statement(n),
            Statement::Return(n) => resolver.visit_return_statement(n),
            Statement::Class(n) => resolver.visit_class_statement(n),
        }
    }
}

/// The text of a static error.
pub open spec fn message_text(message: ResolveMessage) -> Seq<char> {
    match message {
        ResolveMessage::ReadInOwnInitializer =>
            "Can't read local variable in its own initializer."@,
        ResolveMessage::AlreadyDeclared => "Already a variable with this name in this scope."@,
        ResolveMessage::ReturnFromTopLevel => "Can't return from top-level code."@,
        ResolveMessage::ReturnValueFromInitializer => "Can't return a value from an initializer."@,
        ResolveMessage::ThisOutsideClass => "Can't use 'this' outside of a class."@,
        ResolveMessage::SuperOutsideClass => "Can't use 'super' outside of a class."@,
        ResolveMessage::SuperWithoutSuperclass =>
            "Can't use 'super' in a class with no superclass."@,
        ResolveMessage::InheritFromItself => "A class can't inherit from itself."@,
    }
}

/// The two lines that report a static error: the message, and the line of
/// the token.
pub open spec fn resolve_report(error: ResolveError) -> Seq<char> {
    message_text(error.message) + "\n[line "@ + decimal(error.token.line as nat) + "]"@
}

impl ResolveMessage {
    /// The text of the message.
    pub fn text(&self) -> (r: &'static str)
        ensures
            r@ == message_text(*self),
    {
        match self {
            ResolveMessage::ReadInOwnInitializer =>
                "Can't read local variable in its own initializer.",
            ResolveMessage::AlreadyDeclared => "Already a variable with this name in this scope.",
            ResolveMessage::ReturnFromTopLevel => "Can't return from top-level code.",
            ResolveMessage::ReturnValueFromInitializer =>
                "Can't return a value from an initializer.",
            ResolveMessage::ThisOutsideClass => "Can't use 'this' outside of a class.",
            ResolveMessage::SuperOutsideClass => "Can't use 'super' outside of a class.",
            ResolveMessage::SuperWithoutSuperclass =>
                "Can't use 'super' in a class with no superclass.",
            ResolveMessage::InheritFromItself => "A class can't inherit from itself.",
        }
    }
}

impl ResolveError {
    /// The two lines that report the error.
    pub fn report(&self) -> (r: String)
        ensures
            r@ == resolve_report(*self),
    {
        let mut text = String::from_str(self.message.text());
        write_text(&mut text, "\n[line ");
        write_decimal(&mut text, self.token.line as u64);
        write_text(&mut text, "]");
        assert(text@ =~= resolve_report(*self));
        text
    }
}

} // verus!
