use lox::ast::{Expression, Statement};
use lox::parser::Parser;
use lox::resolver::Resolver;
use lox::scanner::tokenize;
use lox::scoping::{ClassType, FunctionType, ResolveError, ResolveMessage};
use lox::token::{Token, TokenType};
use std::collections::HashMap;

fn program(source: &str) -> Vec<Statement> {
    let mut parser = Parser::new(tokenize(&source.chars().collect()).tokens);
    parser.parse().unwrap()
}

fn resolve(source: &str) -> Result<HashMap<u64, usize>, ResolveError> {
    let statements = program(source);
    let mut resolver = Resolver::new();
    resolver.resolve_statements(&statements)?;
    assert!(resolver.scopes.is_empty());
    assert_eq!(resolver.current_function, FunctionType::NONE);
    assert_eq!(resolver.current_class, ClassType::NONE);
    Ok(resolver.locals)
}

fn message(source: &str) -> ResolveMessage {
    resolve(source).unwrap_err().message
}

fn name(text: &str) -> Token {
    Token::new(TokenType::IDENTIFIER, text, 1)
}

#[test]
fn globals_are_left_unresolved() {
    assert!(resolve("var a = 1; print a; a = 2;").unwrap().is_empty());
    assert!(resolve("fun f() {} f();").unwrap().is_empty());
}

#[test]
fn local_is_found_at_its_depth() {
    // var a (no id); print a -> id 0; { print a -> id 1; { print a -> id 2 } }
    let locals = resolve("{ var a; print a; { print a; { print a; } } }").unwrap();
    assert_eq!(locals.len(), 3);
    assert_eq!(locals[&0], 0);
    assert_eq!(locals[&1], 1);
    assert_eq!(locals[&2], 2);
}

#[test]
fn inner_declaration_hides_the_outer() {
    // { var a; { var a; print a (id 0); } print a (id 1); }
    let locals = resolve("{ var a; { var a; print a; } print a; }").unwrap();
    assert_eq!(locals[&0], 0);
    assert_eq!(locals[&1], 0);
}

#[test]
fn reference_in_front_of_a_later_declaration_goes_further_out() {
    // { var a; { print a (id 0); var a; print a (id 1); } }
    let locals = resolve("{ var a; { print a; var a; print a; } }").unwrap();
    assert_eq!(locals[&0], 1);
    assert_eq!(locals[&1], 0);
}

#[test]
fn assignment_is_resolved_like_a_read() {
    // { var a; { a = 1; } }: literal id 1, assignment id 2
    let locals = resolve("{ var a; { a = 1; } }").unwrap();
    assert_eq!(locals.len(), 1);
    assert_eq!(locals[&2], 1);
}

#[test]
fn parameters_live_in_the_scope_of_the_body() {
    // fun f(a) { print a (id 0); { print a (id 1); } }
    let locals = resolve("fun f(a) { print a; { print a; } }").unwrap();
    assert_eq!(locals[&0], 0);
    assert_eq!(locals[&1], 1);
}

#[test]
fn this_and_super_are_resolved_in_the_scopes_of_the_class() {
    // class B < A (id 0) { m() { this (id 1); super.m (id 2); } }
    let locals = resolve("class A {} class B < A { m() { this; super.m; } }").unwrap();
    assert_eq!(locals.get(&0), None);
    assert_eq!(locals[&1], 1);
    assert_eq!(locals[&2], 2);
}

#[test]
fn local_function_may_call_itself() {
    // { fun f() { f (id 0) (); call id 1 } }
    let locals = resolve("{ fun f() { f(); } }").unwrap();
    assert_eq!(locals[&0], 1);
}

#[test]
fn static_errors_are_found() {
    assert_eq!(message("{ var a = a; }"), ResolveMessage::ReadInOwnInitializer);
    assert_eq!(message("{ var a = 1; { var a = a; } }"), ResolveMessage::ReadInOwnInitializer);
    assert_eq!(message("{ var a; var a; }"), ResolveMessage::AlreadyDeclared);
    assert_eq!(message("fun f(a) { var a; }"), ResolveMessage::AlreadyDeclared);
    assert_eq!(message("return;"), ResolveMessage::ReturnFromTopLevel);
    assert_eq!(
        message("class A { init() { return nil; } }"),
        ResolveMessage::ReturnValueFromInitializer
    );
    assert_eq!(message("this;"), ResolveMessage::ThisOutsideClass);
    assert_eq!(message("fun f() { this; }"), ResolveMessage::ThisOutsideClass);
    assert_eq!(message("super.m;"), ResolveMessage::SuperOutsideClass);
    assert_eq!(message("class A { m() { super.m; } }"), ResolveMessage::SuperWithoutSuperclass);
    assert_eq!(message("class A < A {}"), ResolveMessage::InheritFromItself);
}

#[test]
fn what_is_no_error() {
    assert!(resolve("var a = a;").is_ok());
    assert!(resolve("var a; var a;").is_ok());
    assert!(resolve("class A { init() { return; } }").is_ok());
    assert!(resolve("class A { m() { return 1; } }").is_ok());
    assert!(resolve("fun f() { return 1; }").is_ok());
    assert!(resolve("class A { m() { fun g() { return this; } } }").is_ok());
    assert!(resolve("{ var a = 1; { var b = a; } }").is_ok());
}

#[test]
fn the_first_error_ends_the_resolution() {
    let error = resolve("{\nvar a = a;\n}\nreturn;").unwrap_err();
    assert_eq!(error.message, ResolveMessage::ReadInOwnInitializer);
    assert_eq!(error.token.token_value, "a");
    assert_eq!(error.token.line, 2);
    assert_eq!(
        error.report(),
        "Can't read local variable in its own initializer.\n[line 2]"
    );
}

#[test]
fn resolve_message_texts() {
    assert_eq!(ResolveMessage::AlreadyDeclared.text(), "Already a variable with this name in this scope.");
    assert_eq!(ResolveMessage::ReturnFromTopLevel.text(), "Can't return from top-level code.");
    assert_eq!(
        ResolveMessage::ReturnValueFromInitializer.text(),
        "Can't return a value from an initializer."
    );
    assert_eq!(ResolveMessage::ThisOutsideClass.text(), "Can't use 'this' outside of a class.");
    assert_eq!(ResolveMessage::SuperOutsideClass.text(), "Can't use 'super' outside of a class.");
    assert_eq!(
        ResolveMessage::SuperWithoutSuperclass.text(),
        "Can't use 'super' in a class with no superclass."
    );
    assert_eq!(ResolveMessage::InheritFromItself.text(), "A class can't inherit from itself.");
}

#[test]
fn scopes_by_hand() {
    let mut resolver = Resolver::new();
    assert!(resolver.declare(&name("a")).is_ok());
    resolver.define(&name("a"));
    assert!(resolver.scopes.is_empty());
    resolver.resolve_local(1, &name("a"));
    assert!(resolver.locals.is_empty());

    resolver.begin_scope();
    assert!(resolver.declare(&name("a")).is_ok());
    assert_eq!(resolver.scopes[0].get("a"), Some(&false));
    assert_eq!(
        resolver.declare(&name("a")).unwrap_err().message,
        ResolveMessage::AlreadyDeclared
    );
    resolver.define(&name("a"));
    assert_eq!(resolver.scopes[0].get("a"), Some(&true));
    resolver.begin_scope();
    resolver.resolve_local(7, &name("a"));
    resolver.resolve_local(8, &name("b"));
    assert_eq!(resolver.locals.get(&7), Some(&1));
    assert_eq!(resolver.locals.get(&8), None);
    resolver.end_scope();
    resolver.resolve_local(9, &name("a"));
    assert_eq!(resolver.locals.get(&9), Some(&0));
    resolver.end_scope();
    resolver.end_scope();
    assert!(resolver.scopes.is_empty());
}

#[test]
fn nodes_are_resolved_one_by_one() {
    let statements = program("{ var a; a; }");
    let mut resolver = Resolver::new();
    resolver.begin_scope();
    match &statements[0] {
        Statement::Block(block) => {
            assert!(block.statements[0].resolve(&mut resolver).is_ok());
            match &block.statements[1] {
                Statement::Expression(s) => {
                    assert!(s.expression.resolve(&mut resolver).is_ok());
                    match &s.expression {
                        Expression::Variable(v) => {
                            assert_eq!(resolver.locals.get(&v.id), Some(&0))
                        }
                        _ => panic!("expected a name"),
                    }
                }
                _ => panic!("expected an expression statement"),
            }
        }
        _ => panic!("expected a block"),
    }
}
