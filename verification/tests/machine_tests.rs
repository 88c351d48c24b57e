use lox::ast::{Expression, Statement};
use lox::error::RuntimeMessage;
use lox::interpreter::{Interpreter, InterpreterTrait, LoxCallableTrait};
use lox::machine::{Action, Control, Frame, Request};
use lox::parser::Parser;
use lox::resolver::Resolver;
use lox::scanner::tokenize;
use lox::token::TokenType;
use lox::value::LiteralValue;
use std::collections::HashMap;

fn program(source: &str) -> Vec<Statement> {
    let mut parser = Parser::new(tokenize(&source.chars().collect()).tokens);
    parser.parse().unwrap()
}

fn expression(source: &str) -> Expression {
    let mut parser = Parser::new(tokenize(&source.chars().collect()).tokens);
    parser.expression().unwrap()
}

fn locals(statements: &Vec<Statement>) -> HashMap<u64, usize> {
    let mut resolver = Resolver::new();
    resolver.resolve_statements(statements).unwrap();
    resolver.locals
}

/// Steps until the host is asked for something but the number of a numeral.
fn until_asked(interpreter: &mut Interpreter, reply: Option<LiteralValue>) -> Action {
    let mut reply = reply;
    loop {
        match interpreter.step(reply.take()) {
            Action::Continue => {}
            Action::Ask(Request::Numeral(numeral)) => reply = Some(LiteralValue::Number(numeral)),
            action => return action,
        }
    }
}

fn number(text: &str) -> LiteralValue {
    LiteralValue::Number(text.to_string())
}

#[test]
fn the_machine_starts_with_the_program_and_the_clock() {
    let statements = program("print 1;");
    let interpreter = Interpreter::new(&statements, HashMap::new());
    assert!(matches!(interpreter.control, Control::Completed(None)));
    assert_eq!(interpreter.frames.len(), 1);
    assert!(matches!(interpreter.frames[0], Frame::Sequence(_, 0)));
    assert_eq!(interpreter.environment, 0);
    assert_eq!(interpreter.heap.environments.len(), 1);
    assert!(matches!(
        interpreter.heap.environments[0].own("clock"),
        Some(LiteralValue::Clock(_))
    ));
    assert!(!interpreter.is_done());
}

#[test]
fn an_empty_program_is_done_in_two_steps() {
    let statements = program("");
    let mut interpreter = Interpreter::new(&statements, HashMap::new());
    assert!(matches!(interpreter.step(None), Action::Continue));
    assert!(matches!(interpreter.step(None), Action::Done));
    assert!(interpreter.is_done());
    assert!(matches!(interpreter.step(None), Action::Done));
}

#[test]
fn print_takes_these_steps() {
    let statements = program("print \"hi\";");
    let mut interpreter = Interpreter::new(&statements, HashMap::new());
    assert!(matches!(interpreter.step(None), Action::Continue));
    assert!(matches!(interpreter.control, Control::Execute(Statement::Print(_))));
    assert!(matches!(interpreter.frames[0], Frame::Sequence(_, 1)));
    assert!(matches!(interpreter.step(None), Action::Continue));
    assert!(matches!(interpreter.control, Control::Evaluate(Expression::Literal(_))));
    assert!(matches!(interpreter.frames[1], Frame::Print));
    assert!(matches!(interpreter.step(None), Action::Continue));
    assert!(matches!(&interpreter.control, Control::Value(LiteralValue::String(s)) if s == "hi"));
    assert!(matches!(interpreter.step(None), Action::Print(text) if text == "hi"));
    assert!(matches!(interpreter.control, Control::Completed(None)));
    assert_eq!(interpreter.frames.len(), 1);
    assert!(matches!(interpreter.step(None), Action::Continue));
    assert!(matches!(interpreter.step(None), Action::Done));
}

#[test]
fn arithmetic_is_asked_of_the_host_with_its_operands() {
    let statements = program("print 6 * 7;");
    let mut interpreter = Interpreter::new(&statements, HashMap::new());
    match until_asked(&mut interpreter, None) {
        Action::Ask(Request::Arithmetic(operator, left, right)) => {
            assert_eq!(operator, TokenType::STAR);
            assert_eq!(left, "6");
            assert_eq!(right, "7");
        }
        _ => panic!("expected a request"),
    }
    assert!(matches!(interpreter.control, Control::Awaiting(Request::Arithmetic(..))));
    assert!(matches!(
        until_asked(&mut interpreter, Some(number("42"))),
        Action::Print(text) if text == "42"
    ));
}

#[test]
fn a_request_is_made_again_until_it_is_answered() {
    let statements = program("print 1 < 2;");
    let mut interpreter = Interpreter::new(&statements, HashMap::new());
    assert!(matches!(
        until_asked(&mut interpreter, None),
        Action::Ask(Request::Compare(TokenType::LESS, ..))
    ));
    assert!(matches!(interpreter.step(None), Action::Ask(Request::Compare(..))));
    assert!(matches!(
        interpreter.step(Some(number("1"))),
        Action::Ask(Request::Compare(..))
    ));
    assert!(matches!(
        interpreter.step(Some(LiteralValue::Instance(5))),
        Action::Ask(Request::Compare(..))
    ));
    assert!(matches!(
        interpreter.step(Some(LiteralValue::Boolean(true))),
        Action::Continue
    ));
    assert!(matches!(until_asked(&mut interpreter, None), Action::Print(text) if text == "true"));
}

#[test]
fn a_number_does_not_answer_for_a_boolean_nor_a_boolean_for_a_number() {
    let statements = program("print -1;");
    let mut interpreter = Interpreter::new(&statements, HashMap::new());
    assert!(matches!(
        until_asked(&mut interpreter, None),
        Action::Ask(Request::Negate(a)) if a == "1"
    ));
    assert!(matches!(
        interpreter.step(Some(LiteralValue::Boolean(true))),
        Action::Ask(Request::Negate(_))
    ));
    assert!(matches!(interpreter.step(Some(number("-1"))), Action::Continue));
}

#[test]
fn the_number_of_a_numeral_is_asked_of_the_host() {
    let statements = program("print 1.50 == 1.5;");
    let mut interpreter = Interpreter::new(&statements, HashMap::new());
    let mut asked = Vec::new();
    let mut reply = None;
    let printed = loop {
        match interpreter.step(reply.take()) {
            Action::Continue => {}
            Action::Ask(Request::Numeral(numeral)) => {
                asked.push(numeral);
                reply = Some(number("1.5"));
            }
            Action::Print(text) => break text,
            _ => panic!("expected a numeral or a line of output"),
        }
    };
    assert_eq!(asked, vec!["1.50", "1.5"]);
    assert_eq!(printed, "true");
}

#[test]
fn a_reply_that_was_not_asked_for_is_ignored() {
    let statements = program("print nil;");
    let mut interpreter = Interpreter::new(&statements, HashMap::new());
    assert!(matches!(
        until_asked(&mut interpreter, Some(number("5"))),
        Action::Print(text) if text == "nil"
    ));
}

#[test]
fn a_failed_machine_stays_failed() {
    let statements = program("x;");
    let mut interpreter = Interpreter::new(&statements, HashMap::new());
    match until_asked(&mut interpreter, None) {
        Action::Fail(error) => {
            assert_eq!(error.message, RuntimeMessage::UndefinedVariable);
            assert_eq!(error.token.token_value, "x");
        }
        _ => panic!("expected a failure"),
    }
    assert!(interpreter.is_done());
    assert!(matches!(interpreter.step(None), Action::Fail(_)));
    assert!(matches!(interpreter.interpret(None, 10), Action::Fail(_)));
}

#[test]
fn interpret_takes_as_many_steps_as_it_is_given() {
    let statements = program("var a = nil; var b = nil; var c = nil;");
    let mut stepped = Interpreter::new(&statements, HashMap::new());
    let mut run = Interpreter::new(&statements, HashMap::new());
    for _ in 0..4 {
        assert!(matches!(stepped.step(None), Action::Continue));
    }
    assert!(matches!(run.interpret(None, 3), Action::Continue));
    assert_eq!(run.frames.len(), stepped.frames.len());
    assert_eq!(
        run.heap.environments[0].own("a").is_some(),
        stepped.heap.environments[0].own("a").is_some()
    );
    assert!(matches!(run.interpret(None, 1000), Action::Done));
    assert!(run.heap.environments[0].own("c").is_some());
    let mut once = Interpreter::new(&statements, HashMap::new());
    assert!(matches!(once.interpret(None, 0), Action::Continue));
    assert!(matches!(once.control, Control::Execute(_)));
}

#[test]
fn an_expression_is_evaluated_to_a_result() {
    let tree = expression("\"a\" + \"b\" == \"ab\"");
    let mut interpreter = Interpreter::evaluating(&tree, HashMap::new());
    assert!(interpreter.result().is_none());
    let mut steps = 0;
    while interpreter.result().is_none() {
        assert!(matches!(interpreter.step(None), Action::Continue));
        steps += 1;
        assert!(steps < 100);
    }
    assert!(matches!(interpreter.result(), Some(LiteralValue::Boolean(true))));
    assert!(interpreter.has_result());
    assert!(matches!(interpreter.step(None), Action::Done));
    assert!(interpreter.result().is_none());
    let mut run = Interpreter::evaluating(&tree, HashMap::new());
    assert!(matches!(run.interpret(None, 1000), Action::Continue));
    assert!(matches!(run.result(), Some(LiteralValue::Boolean(true))));
}

#[test]
fn a_block_runs_in_an_environment_of_its_own_and_goes_back() {
    let statements = program("{ var a = nil; }");
    let side_table = locals(&statements);
    let mut interpreter = Interpreter::new(&statements, side_table);
    let mut deepest = 0;
    while !interpreter.is_done() {
        interpreter.step(None);
        deepest = deepest.max(interpreter.environment);
    }
    assert_eq!(deepest, 1);
    assert_eq!(interpreter.environment, 0);
    assert_eq!(interpreter.heap.environments.len(), 2);
    assert!(interpreter.heap.environments[1].own("a").is_some());
    assert!(interpreter.heap.environments[0].own("a").is_none());
    assert!(interpreter.frames.is_empty());
}

#[test]
fn the_environment_is_restored_when_a_return_unwinds() {
    let statements = program("fun f() { { { return nil; } } } f(); var done = true;");
    let side_table = locals(&statements);
    let mut interpreter = Interpreter::new(&statements, side_table);
    assert!(matches!(interpreter.interpret(None, 10_000), Action::Done));
    assert_eq!(interpreter.environment, 0);
    assert!(interpreter.heap.environments[0].own("done").is_some());
    assert_eq!(interpreter.heap.environments.len(), 4);
}

#[test]
fn the_environment_is_restored_when_a_statement_in_a_block_fails() {
    let statements = program("var before = true; { var a = nil; -nil; }");
    let side_table = locals(&statements);
    let mut interpreter = Interpreter::new(&statements, side_table);
    let mut deepest = 0;
    let failure = loop {
        match interpreter.step(None) {
            Action::Fail(error) => break error,
            Action::Done => panic!("expected a failure"),
            _ => deepest = deepest.max(interpreter.environment),
        }
    };
    assert_eq!(failure.message, RuntimeMessage::OperandMustBeANumber);
    assert_eq!(deepest, 1);
    assert_eq!(interpreter.environment, 0);
    assert_eq!(interpreter.unwound(), 0);
    assert!(interpreter.is_done());
    assert!(interpreter.heap.environments[1].own("a").is_some());
    assert!(matches!(interpreter.step(None), Action::Fail(_)));
    assert_eq!(interpreter.environment, 0);
}

#[test]
fn the_environment_is_restored_when_a_call_inside_nested_blocks_fails() {
    let statements =
        program("fun f(x) { { { return x.y; } } }\n{ var a = 1; { var b = 2; f(a); } }");
    let side_table = locals(&statements);
    let mut interpreter = Interpreter::new(&statements, side_table);
    let mut deepest = 0;
    let failure = loop {
        match until_asked(&mut interpreter, None) {
            Action::Fail(error) => break error,
            Action::Done => panic!("expected a failure"),
            _ => {}
        }
        deepest = deepest.max(interpreter.environment);
    };
    assert_eq!(failure.message, RuntimeMessage::OnlyInstancesHaveProperties);
    assert!(interpreter.heap.environments.len() >= 6);
    assert!(interpreter.frames.len() > 4);
    assert_eq!(interpreter.environment, 0);
}

#[test]
fn a_failure_outside_of_every_block_stays_in_the_globals() {
    let statements = program("var a = 1; a();");
    let mut interpreter = Interpreter::new(&statements, HashMap::new());
    assert!(matches!(until_asked(&mut interpreter, None), Action::Fail(_)));
    assert_eq!(interpreter.environment, 0);
}

#[test]
fn whether_two_numbers_that_are_written_differently_are_equal_is_asked_of_the_host() {
    for (source, operator, answer, printed) in [
        ("print 1 == 1.0;", TokenType::EQUAL_EQUAL, true, "true"),
        ("print 1 != 1.0;", TokenType::BANG_EQUAL, false, "false"),
        ("print 1 == 2;", TokenType::EQUAL_EQUAL, false, "false"),
        ("print 1 != 2;", TokenType::BANG_EQUAL, true, "true"),
    ] {
        let statements = program(source);
        let mut interpreter = Interpreter::new(&statements, HashMap::new());
        match until_asked(&mut interpreter, None) {
            Action::Ask(Request::Compare(asked, left, right)) => {
                assert_eq!(asked, operator);
                assert_eq!(left, "1");
                assert!(right == "1.0" || right == "2");
            }
            _ => panic!("expected a request"),
        }
        assert!(matches!(
            interpreter.step(Some(number("1"))),
            Action::Ask(Request::Compare(..))
        ));
        assert!(matches!(
            until_asked(&mut interpreter, Some(LiteralValue::Boolean(answer))),
            Action::Print(text) if text == printed
        ));
    }
}

#[test]
fn two_numbers_that_are_written_alike_are_equal_without_the_host() {
    for (source, printed) in [
        ("print 1.5 == 1.5;", "true"),
        ("print 1.5 != 1.5;", "false"),
        ("print 1 == \"1\";", "false"),
        ("print 1 != \"1\";", "true"),
        ("print nil == nil;", "true"),
        ("print nil != false;", "true"),
        ("print \"a\" == \"a\";", "true"),
    ] {
        let statements = program(source);
        let mut interpreter = Interpreter::new(&statements, HashMap::new());
        assert!(matches!(
            until_asked(&mut interpreter, None),
            Action::Print(text) if text == printed
        ));
    }
}

#[test]
fn the_side_table_is_filled_by_hand() {
    let statements = program("print 1;");
    let mut interpreter = Interpreter::new(&statements, HashMap::new());
    interpreter.resolve(7, 2);
    assert_eq!(interpreter.locals.get(&7), Some(&2));
    let value = LiteralValue::Boolean(false);
    assert!(!interpreter.is_truthy(&value));
    assert_eq!(interpreter.is_equal(&value, &LiteralValue::Boolean(false)), Some(true));
    assert_eq!(interpreter.is_equal(&number("1"), &number("1.0")), None);
}

fn literal(value: LiteralValue, id: u64) -> Expression {
    Expression::Literal(lox::ast::Literal { value, id })
}

fn failure(tree: &Expression) -> RuntimeMessage {
    let mut interpreter = Interpreter::evaluating(tree, HashMap::new());
    match until_asked(&mut interpreter, None) {
        Action::Fail(error) => error.message,
        _ => panic!("expected a failure"),
    }
}

fn name(kind: TokenType, text: &str) -> lox::token::Token {
    lox::token::Token::new(kind, text, 1)
}

#[test]
fn an_operator_that_is_none_fails() {
    let binary = Expression::Binary(lox::ast::BinaryExpression {
        left: Box::new(literal(LiteralValue::Nil, 0)),
        right: Box::new(literal(LiteralValue::Nil, 1)),
        operator: name(TokenType::COMMA, ","),
        id: 2,
    });
    assert_eq!(failure(&binary), RuntimeMessage::UnknownOperator);
    let unary = Expression::Unary(lox::ast::UnaryExpression {
        operator: name(TokenType::PLUS, "+"),
        expression: Box::new(literal(LiteralValue::Nil, 0)),
        id: 1,
    });
    assert_eq!(failure(&unary), RuntimeMessage::UnknownOperator);
}

#[test]
fn a_handle_that_names_nothing_is_neither_callable_nor_an_instance() {
    for value in [
        LiteralValue::Function(9),
        LiteralValue::LoxClass(9),
        LiteralValue::Instance(9),
    ] {
        let call = Expression::Call(lox::ast::CallExpression {
            callee: Box::new(literal(value.clone(), 0)),
            paren: name(TokenType::RIGHT_PAREN, ")"),
            arguments: Vec::new(),
            id: 1,
        });
        assert_eq!(failure(&call), RuntimeMessage::CanOnlyCallFunctionsAndClasses);
        let get = Expression::Get(lox::ast::GetExpression {
            expression: Box::new(literal(value.clone(), 0)),
            name: name(TokenType::IDENTIFIER, "x"),
            id: 1,
        });
        assert_eq!(failure(&get), RuntimeMessage::OnlyInstancesHaveProperties);
        let set = Expression::SetField(lox::ast::SetExpression {
            expression: Box::new(literal(value, 0)),
            name: name(TokenType::IDENTIFIER, "x"),
            value: Box::new(literal(LiteralValue::Nil, 1)),
            id: 2,
        });
        assert_eq!(failure(&set), RuntimeMessage::OnlyInstancesHaveProperties);
    }
}

#[test]
fn without_a_side_table_every_name_is_a_global() {
    let statements = program("var a = \"global\"; { var a = \"local\"; print a; }");
    let mut interpreter = Interpreter::new(&statements, HashMap::new());
    assert!(matches!(
        until_asked(&mut interpreter, None),
        Action::Print(text) if text == "global"
    ));
}

#[test]
fn this_and_super_need_the_side_table() {
    let tree = expression("this");
    assert_eq!(failure(&tree), RuntimeMessage::UndefinedVariable);
    let tree = expression("super.m");
    assert_eq!(failure(&tree), RuntimeMessage::UndefinedVariable);
}

#[test]
fn values_say_how_many_arguments_a_call_of_them_takes() {
    let statements = program("fun f(a, b) {} class A { init(x) {} } class B {}");
    let mut interpreter = Interpreter::new(&statements, HashMap::new());
    assert!(matches!(interpreter.interpret(None, 1000), Action::Done));
    let value = |interpreter: &Interpreter, name: &str| {
        interpreter.heap.environments[0].own(name).unwrap().clone()
    };
    assert_eq!(value(&interpreter, "f").arity(&interpreter), 2);
    assert_eq!(value(&interpreter, "A").arity(&interpreter), 1);
    assert_eq!(value(&interpreter, "B").arity(&interpreter), 0);
    assert_eq!(value(&interpreter, "clock").arity(&interpreter), 0);
    assert_eq!(LiteralValue::Nil.arity(&interpreter), 0);
    assert_eq!(LiteralValue::Function(9).arity(&interpreter), 0);
    let function = interpreter.heap.functions[0];
    assert_eq!(function.arity(&interpreter), 2);
    assert_eq!(lox::value::Clock {}.arity(&interpreter), 0);
}

#[test]
fn a_value_is_called() {
    let statements = program("fun f(a) { return a; }");
    let mut interpreter = Interpreter::new(&statements, HashMap::new());
    assert!(matches!(interpreter.interpret(None, 1000), Action::Done));
    let paren = name(TokenType::RIGHT_PAREN, ")");
    let f = interpreter.heap.environments[0].own("f").unwrap().clone();
    assert!(matches!(
        f.call(&mut interpreter, &paren, vec![LiteralValue::Boolean(true)]),
        Action::Continue
    ));
    assert_eq!(interpreter.environment, 1);
    assert!(matches!(
        interpreter.heap.environments[1].own("a"),
        Some(LiteralValue::Boolean(true))
    ));
    assert!(matches!(interpreter.frames.last(), Some(Frame::Sequence(_, 0))));
    match f.call(&mut interpreter, &paren, Vec::new()) {
        Action::Fail(error) => {
            assert_eq!(error.message, RuntimeMessage::WrongArity { expected: 1, got: 0 })
        }
        _ => panic!("expected a failure"),
    }
    let mut other = Interpreter::new(&statements, HashMap::new());
    assert!(matches!(
        lox::value::Clock {}.call(&mut other, &paren, Vec::new()),
        Action::Ask(Request::Clock)
    ));
    let mut third = Interpreter::new(&statements, HashMap::new());
    assert!(matches!(
        LiteralValue::Nil.call(&mut third, &paren, Vec::new()),
        Action::Fail(_)
    ));
}

#[test]
fn a_parsed_program_neither_declares_nor_assigns_this() {
    let statements = program(
        "class A < B { init(x) { this.x = x; var y = this; y = super.m; } }\nfun f(a) { a = 1; { var b = a; } }\nvar c = A(1).x;",
    );
    assert!(lox::construction::statements_are_plain(&statements));
    assert!(lox::construction::statement_is_plain(&statements[0]));
    assert!(lox::construction::expression_is_plain(&expression("a = b.c(d = 1)")));
}

/// The first assignment in the body of the first method of the first
/// statement, which is a class.
fn first_assignment(statements: &mut Vec<Statement>) -> &mut lox::ast::AssignmentExpression {
    match &mut statements[0] {
        Statement::Class(class) => match &mut class.methods[0].body[0] {
            Statement::Expression(s) => match &mut s.expression {
                Expression::Assignment(n) => n,
                _ => panic!("expected an assignment"),
            },
            _ => panic!("expected an expression statement"),
        },
        _ => panic!("expected a class"),
    }
}

#[test]
fn a_tree_made_by_hand_may_assign_this_and_then_an_initializer_returns_what_was_assigned() {
    let source = "class A { init() { x = nil; } }\nvar a = A();\nprint a.init() == a;\nprint a;";
    let mut statements = program(source);
    let mut side_table = locals(&program(source));
    assert!(lox::construction::statements_are_plain(&statements));
    let assignment = first_assignment(&mut statements);
    assignment.name = name(TokenType::THIS, "this");
    side_table.insert(assignment.id, 1);
    assert!(!lox::construction::statements_are_plain(&statements));
    let mut interpreter = Interpreter::new(&statements, side_table);
    assert!(matches!(
        until_asked(&mut interpreter, None),
        Action::Print(text) if text == "false"
    ));
    assert!(matches!(
        until_asked(&mut interpreter, None),
        Action::Print(text) if text == "A instance"
    ));
}

#[test]
fn what_an_initializer_writes_is_in_the_instance_that_the_call_of_the_class_yields() {
    let statements = program(
        "class P { init(x, y) { this.x = x; if (y) return; this.z = nil; } }\nvar p = P(true, false);\nvar q = P(nil, true);",
    );
    let side_table = locals(&statements);
    let mut interpreter = Interpreter::new(&statements, side_table);
    assert!(matches!(until_asked(&mut interpreter, None), Action::Done));
    assert_eq!(interpreter.environment, 0);
    assert!(interpreter.frames.is_empty());
    assert_eq!(interpreter.heap.instances.len(), 2);
    assert!(matches!(
        interpreter.heap.environments[0].own("p"),
        Some(LiteralValue::Instance(0))
    ));
    assert!(matches!(
        interpreter.heap.environments[0].own("q"),
        Some(LiteralValue::Instance(1))
    ));
    let first = &interpreter.heap.instances[0];
    assert_eq!(first.klass, 0);
    assert!(matches!(first.fields.get("x"), Some(LiteralValue::Boolean(true))));
    assert!(matches!(first.fields.get("z"), Some(LiteralValue::Nil)));
    let second = &interpreter.heap.instances[1];
    assert!(matches!(second.fields.get("x"), Some(LiteralValue::Nil)));
    assert!(second.fields.get("z").is_none());
}

#[test]
fn a_bound_initializer_that_is_called_again_yields_its_instance() {
    let statements = program(
        "class C { init(n) { this.n = n; } }\nvar c = C(nil);\nvar d = c.init(true);\nvar same = c == d;",
    );
    let side_table = locals(&statements);
    let mut interpreter = Interpreter::new(&statements, side_table);
    assert!(matches!(until_asked(&mut interpreter, None), Action::Done));
    assert!(matches!(
        interpreter.heap.environments[0].own("d"),
        Some(LiteralValue::Instance(0))
    ));
    assert!(matches!(
        interpreter.heap.environments[0].own("same"),
        Some(LiteralValue::Boolean(true))
    ));
    assert!(matches!(
        interpreter.heap.instances[0].fields.get("n"),
        Some(LiteralValue::Boolean(true))
    ));
    assert_eq!(interpreter.heap.instances.len(), 1);
}
