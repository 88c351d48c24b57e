use lox::environment::{EnvExt, Environment, GLOBALS};
use lox::error::RuntimeMessage;
use lox::heap::{Heap, LoxClass, LoxFunction, LoxInstance, LoxInstanceExt};
use lox::ast::FunctionStatement;
use lox::token::{Token, TokenType};
use lox::value::LiteralValue;
use vstd::hash_map::StringHashMap;

fn name(text: &str) -> Token {
    Token::new(TokenType::IDENTIFIER, text, 3)
}

fn number(text: &str) -> LiteralValue {
    LiteralValue::Number(text.to_string())
}

fn is_number(value: Option<LiteralValue>, text: &str) -> bool {
    matches!(value, Some(LiteralValue::Number(n)) if n == text)
}

/// globals <- outer <- inner
fn chain() -> Vec<Environment> {
    vec![
        Environment::new(None),
        Environment::new(Some(0)),
        Environment::new(Some(1)),
    ]
}

#[test]
fn define_binds_and_overwrites() {
    let mut scope = Environment::new(None);
    assert!(scope.own("a").is_none());
    scope.define("a".to_string(), number("1"));
    assert!(matches!(scope.own("a"), Some(LiteralValue::Number(n)) if n == "1"));
    scope.define("a".to_string(), number("2"));
    assert!(matches!(scope.own("a"), Some(LiteralValue::Number(n)) if n == "2"));
    assert!(scope.enclosing.is_none());
}

#[test]
fn get_walks_up_the_chain() {
    let mut environments = chain();
    environments[0].define("a".to_string(), number("0"));
    environments[1].define("b".to_string(), number("1"));
    assert!(is_number(Environment::get(&environments, 2, "a"), "0"));
    assert!(is_number(Environment::get(&environments, 2, "b"), "1"));
    assert!(is_number(Environment::get(&environments, 1, "b"), "1"));
    assert!(Environment::get(&environments, 0, "b").is_none());
    assert!(Environment::get(&environments, 2, "c").is_none());
    assert!(is_number(Environment::get(&environments, GLOBALS, "a"), "0"));
}

#[test]
fn inner_binding_hides_the_outer() {
    let mut environments = chain();
    environments[1].define("x".to_string(), number("1"));
    environments[2].define("x".to_string(), number("2"));
    assert!(is_number(Environment::get(&environments, 2, "x"), "2"));
    assert!(is_number(Environment::get(&environments, 1, "x"), "1"));
    environments.push(Environment::new(Some(2)));
    assert!(is_number(Environment::get(&environments, 3, "x"), "2"));
}

#[test]
fn assign_overwrites_the_nearest_binding() {
    let mut environments = chain();
    environments[0].define("a".to_string(), number("0"));
    environments[1].define("a".to_string(), number("1"));
    assert!(Environment::assign(&mut environments, 2, &name("a"), number("9")).is_ok());
    assert!(is_number(Environment::get(&environments, 1, "a"), "9"));
    assert!(is_number(Environment::get(&environments, 0, "a"), "0"));
    assert!(environments[2].own("a").is_none());
}

#[test]
fn assign_to_an_unbound_name_fails_and_changes_nothing() {
    let mut environments = chain();
    let error = Environment::assign(&mut environments, 2, &name("a"), number("9")).unwrap_err();
    assert_eq!(error.message, RuntimeMessage::UndefinedVariable);
    assert_eq!(error.token.token_value, "a");
    assert_eq!(error.text(), "Undefined variable a.");
    assert_eq!(error.report(), "Undefined variable a.\n[line 3]");
    for scope in &environments {
        assert!(scope.own("a").is_none());
    }
}

#[test]
fn find_names_the_environment_that_binds() {
    let mut environments = chain();
    environments[1].define("a".to_string(), number("1"));
    assert_eq!(Environment::find(&environments, 2, "a"), Some(1));
    assert_eq!(Environment::find(&environments, 1, "a"), Some(1));
    assert_eq!(Environment::find(&environments, 0, "a"), None);
}

#[test]
fn ancestor_skips_parent_links() {
    let environments = chain();
    assert_eq!(environments.ancestor(2, 0), Some(2));
    assert_eq!(environments.ancestor(2, 1), Some(1));
    assert_eq!(environments.ancestor(2, 2), Some(0));
    assert_eq!(environments.ancestor(2, 3), None);
    assert_eq!(environments.ancestor(0, 1), None);
}

#[test]
fn get_at_reads_one_environment_only() {
    let mut environments = chain();
    environments[0].define("a".to_string(), number("0"));
    environments[2].define("a".to_string(), number("2"));
    assert!(is_number(environments.get_at(2, 0, "a"), "2"));
    assert!(environments.get_at(2, 1, "a").is_none());
    assert!(is_number(environments.get_at(2, 2, "a"), "0"));
    assert!(environments.get_at(2, 3, "a").is_none());
}

#[test]
fn assign_at_writes_one_environment_only() {
    let mut environments = chain();
    environments[0].define("a".to_string(), number("0"));
    assert!(environments.assign_at(2, 1, &name("a"), number("1")).is_ok());
    assert!(is_number(environments.get_at(2, 1, "a"), "1"));
    assert!(is_number(environments.get_at(2, 2, "a"), "0"));
    assert!(environments.get_at(2, 0, "a").is_none());
    let error = environments.assign_at(2, 5, &name("a"), number("1")).unwrap_err();
    assert_eq!(error.message, RuntimeMessage::UndefinedVariable);
}

#[test]
fn later_definition_nearer_by_does_not_change_what_a_depth_reads() {
    let mut environments = chain();
    environments[0].define("a".to_string(), number("0"));
    assert!(is_number(environments.get_at(2, 2, "a"), "0"));
    environments[1].define("a".to_string(), number("1"));
    environments[2].define("a".to_string(), number("2"));
    assert!(is_number(environments.get_at(2, 2, "a"), "0"));
    assert!(is_number(Environment::get(&environments, 2, "a"), "2"));
}

fn declaration(text: &str, parameters: &[&str]) -> FunctionStatement {
    FunctionStatement {
        name: name(text),
        parameters: parameters.iter().map(|p| name(p)).collect(),
        body: Vec::new(),
    }
}

#[test]
fn heap_starts_with_the_globals() {
    let heap = Heap::new();
    assert_eq!(heap.environments.len(), 1);
    assert!(heap.environments[0].enclosing.is_none());
    assert!(heap.functions.is_empty());
    assert!(heap.classes.is_empty());
    assert!(heap.instances.is_empty());
}

#[test]
fn heap_hands_out_handles_in_order() {
    let f = declaration("f", &["a", "b"]);
    let mut heap = Heap::new();
    assert_eq!(heap.extend(0), 1);
    assert_eq!(heap.extend(1), 2);
    assert_eq!(heap.environments[2].enclosing, Some(1));
    let function = LoxFunction { declaration: &f, closure: 2, is_initializer: false };
    assert_eq!(function.declaration.parameters.len(), 2);
    assert_eq!(heap.add_function(function), 0);
    assert_eq!(heap.add_function(function), 1);
    let class = LoxClass { name: "A".to_string(), methods: StringHashMap::new(), superclass: None };
    assert_eq!(heap.add_class(class), 0);
    assert_eq!(heap.add_instance(0), 0);
    assert_eq!(heap.add_instance(0), 1);
    assert_eq!(heap.instances[1].klass, 0);
    heap.define(1, "x".to_string(), number("1"));
    assert!(is_number(Environment::get(&heap.environments, 2, "x"), "1"));
}

fn class_chain<'a>(m: &'a FunctionStatement, n: &'a FunctionStatement, o: &'a FunctionStatement) -> Heap<'a> {
    let mut heap = Heap::new();
    let mut base = StringHashMap::new();
    base.insert("m".to_string(), LoxFunction { declaration: m, closure: 0, is_initializer: false });
    base.insert("n".to_string(), LoxFunction { declaration: n, closure: 0, is_initializer: false });
    heap.add_class(LoxClass { name: "A".to_string(), methods: base, superclass: None });
    let mut derived = StringHashMap::new();
    derived.insert("n".to_string(), LoxFunction { declaration: o, closure: 0, is_initializer: false });
    heap.add_class(LoxClass { name: "B".to_string(), methods: derived, superclass: Some(0) });
    heap
}

#[test]
fn find_method_searches_the_superclasses() {
    let (m, n, o) = (declaration("m", &[]), declaration("n", &[]), declaration("n", &["x"]));
    let heap = class_chain(&m, &n, &o);
    let arity = |class: usize, name: &str| {
        LoxClass::find_method(&heap.classes, class, name).unwrap().declaration.parameters.len()
    };
    assert_eq!(arity(1, "m"), 0);
    assert_eq!(arity(1, "n"), 1);
    assert_eq!(arity(0, "n"), 0);
    assert!(LoxClass::find_method(&heap.classes, 1, "x").is_none());
    assert_eq!(LoxClass::arity(&heap.classes, 1), 0);
}

#[test]
fn bind_hangs_this_below_the_closure() {
    let m = declaration("m", &[]);
    let mut heap = Heap::new();
    heap.add_class(LoxClass { name: "A".to_string(), methods: StringHashMap::new(), superclass: None });
    let instance = heap.add_instance(0);
    let method = LoxFunction { declaration: &m, closure: 0, is_initializer: true };
    let bound = heap.bind(method, instance);
    assert_eq!(bound.closure, 1);
    assert!(bound.is_initializer);
    assert_eq!(heap.environments.len(), 2);
    assert_eq!(heap.environments[1].enclosing, Some(0));
    assert!(matches!(heap.environments[1].own("this"), Some(LiteralValue::Instance(0))));
    let direct = method.bind(&mut heap.environments, instance);
    assert_eq!(direct.closure, 2);
}

#[test]
fn properties_are_fields_first_and_bound_methods_second() {
    let (m, n, o) = (declaration("m", &[]), declaration("n", &[]), declaration("n", &["x"]));
    let mut heap = class_chain(&m, &n, &o);
    let instance = heap.add_instance(1);
    assert!(heap.get(instance, &name("missing")).is_none());
    assert!(matches!(heap.get(instance, &name("m")), Some(LiteralValue::Function(0))));
    assert_eq!(heap.functions.len(), 1);
    assert_eq!(heap.functions[0].closure, 1);
    assert!(matches!(heap.get(instance, &name("m")), Some(LiteralValue::Function(1))));
    heap.set(instance, &name("m"), number("5"));
    assert!(is_number(heap.get(instance, &name("m")), "5"));
    assert_eq!(heap.functions.len(), 2);
    heap.set(instance, &name("m"), number("6"));
    assert!(is_number(heap.get(instance, &name("m")), "6"));
}

#[test]
fn values_are_described_by_the_heap() {
    let (m, n, o) = (declaration("m", &[]), declaration("n", &[]), declaration("n", &["x"]));
    let mut heap = class_chain(&m, &n, &o);
    let instance = heap.add_instance(1);
    heap.add_function(LoxFunction { declaration: &m, closure: 0, is_initializer: false });
    assert_eq!(heap.describe(&LiteralValue::Function(0)), "<fn m>");
    assert_eq!(heap.describe(&LiteralValue::LoxClass(1)), "B");
    assert_eq!(heap.describe(&LiteralValue::Instance(instance)), "B instance");
    assert_eq!(heap.describe(&LiteralValue::Function(9)), "<fn>");
    assert_eq!(heap.describe(&LiteralValue::LoxClass(9)), "<class>");
    assert_eq!(heap.describe(&LiteralValue::Instance(9)), "<instance>");
    assert_eq!(heap.describe(&number("3")), "3.0");
    assert_eq!(heap.printed(&number("3")), "3");
    assert_eq!(heap.printed(&number("3.5")), "3.5");
    assert_eq!(heap.printed(&LiteralValue::String("s".to_string())), "s");
    assert_eq!(heap.printed(&LiteralValue::Function(0)), "<fn m>");
    let plain = LoxInstance { klass: 0, fields: StringHashMap::new() };
    assert_eq!(plain.klass, 0);
}
