use lox::ast::{BinaryExpression, Expression, Grouping, Literal, UnaryExpression};
use lox::printer::{form, AstPrinter, AstPrinterTrait};
use lox::error::{RuntimeError, RuntimeMessage};
use lox::text::{digit, text_between, write_decimal, write_text};
use lox::token::{Token, TokenType};
use lox::value::{contains_point, Clock, LiteralValue};

fn number(text: &str) -> LiteralValue {
    LiteralValue::Number(text.to_string())
}

fn string(text: &str) -> LiteralValue {
    LiteralValue::String(text.to_string())
}

fn all() -> Vec<LiteralValue> {
    vec![
        LiteralValue::Nil,
        LiteralValue::Boolean(true),
        LiteralValue::Boolean(false),
        number("0"),
        number("1.5"),
        string(""),
        string("1.5"),
        LiteralValue::Clock(Clock {}),
        LiteralValue::Function(0),
        LiteralValue::Function(1),
        LiteralValue::LoxClass(0),
        LiteralValue::Instance(0),
    ]
}

#[test]
fn every_value_is_truthy_or_falsy_and_only_nil_and_false_are_falsy() {
    for value in all() {
        let falsy = matches!(value, LiteralValue::Nil | LiteralValue::Boolean(false));
        assert_eq!(value.is_truthy(), !falsy);
    }
}

#[test]
fn every_value_is_equal_to_itself_and_to_no_other_but_perhaps_a_number() {
    let values = all();
    for (i, a) in values.iter().enumerate() {
        for (j, b) in values.iter().enumerate() {
            let numbers = matches!(a, LiteralValue::Number(_))
                && matches!(b, LiteralValue::Number(_));
            let expected = if numbers && i != j { None } else { Some(i == j) };
            assert_eq!(a.is_equal(b), expected, "{:?} and {:?}", a, b);
        }
    }
}

#[test]
fn equal_values_need_not_be_the_same_object() {
    assert_eq!(
        string("ab").is_equal(&LiteralValue::String(format!("{}{}", "a", "b"))),
        Some(true)
    );
    assert_eq!(string("ab").is_equal(&string("abc")), Some(false));
    assert_eq!(number("12").is_equal(&number("12")), Some(true));
    assert_eq!(number("12").is_equal(&string("12")), Some(false));
    assert_eq!(LiteralValue::Nil.is_equal(&LiteralValue::Boolean(false)), Some(false));
}

#[test]
fn whether_two_numbers_that_are_written_differently_are_equal_is_not_told_here() {
    assert_eq!(number("1").is_equal(&number("1.0")), None);
    assert_eq!(number("1.0").is_equal(&number("1")), None);
    assert_eq!(number("1").is_equal(&number("2")), None);
    assert_eq!(number("0.5").is_equal(&number(".5")), None);
    assert_eq!(number("1.0").is_equal(&number("1.0")), Some(true));
}

#[test]
fn clone_keeps_the_value() {
    for value in all() {
        assert_eq!(value.clone().is_equal(&value), Some(true));
    }
}

#[test]
fn default_is_nil() {
    assert!(matches!(LiteralValue::default(), LiteralValue::Nil));
}

#[test]
fn values_are_displayed_without_a_heap() {
    assert_eq!(LiteralValue::Nil.to_string(), "nil");
    assert_eq!(LiteralValue::Boolean(true).to_string(), "true");
    assert_eq!(LiteralValue::Boolean(false).to_string(), "false");
    assert_eq!(number("42").to_string(), "42.0");
    assert_eq!(number("42.5").to_string(), "42.5");
    assert_eq!(number("-0").to_string(), "-0.0");
    assert_eq!(string("hello").to_string(), "hello");
    assert_eq!(LiteralValue::Clock(Clock {}).to_string(), "<native fn>");
    assert_eq!(LiteralValue::Function(3).to_string(), "<fn>");
    assert_eq!(LiteralValue::LoxClass(3).to_string(), "<class>");
    assert_eq!(LiteralValue::Instance(3).to_string(), "<instance>");
}

#[test]
fn decimal_point_is_found() {
    assert!(contains_point("1.5"));
    assert!(contains_point("."));
    assert!(contains_point("12."));
    assert!(!contains_point("15"));
    assert!(!contains_point(""));
}

#[test]
fn numbers_are_written_in_decimal() {
    for (n, expected) in [
        (0u64, "0"),
        (7, "7"),
        (10, "10"),
        (255, "255"),
        (1009, "1009"),
        (u64::MAX, "18446744073709551615"),
    ] {
        let mut text = String::from("n=");
        write_decimal(&mut text, n);
        assert_eq!(text, format!("n={}", expected));
    }
}

#[test]
fn texts_are_built() {
    let mut text = String::from("a");
    write_text(&mut text, "bc");
    write_text(&mut text, "");
    assert_eq!(text, "abc");
    let chars: Vec<char> = "hello".chars().collect();
    assert_eq!(text_between(&chars, 1, 4), "ell");
    assert_eq!(text_between(&chars, 2, 2), "");
    assert_eq!(text_between(&chars, 0, 5), "hello");
    assert!(digit('0') && digit('5') && digit('9'));
    assert!(!digit('a') && !digit('/') && !digit(':') && !digit('\u{0663}'));
}

fn token(kind: TokenType, text: &str, line: u32) -> Token {
    Token::new(kind, text, line)
}

#[test]
fn runtime_errors_are_reported() {
    let at = token(TokenType::IDENTIFIER, "x", 12);
    let cases = [
        (RuntimeMessage::OperandMustBeANumber, "Operand must be a number."),
        (RuntimeMessage::OperandsMustBeNumbers, "Operands must be numbers."),
        (
            RuntimeMessage::OperandsMustBeTwoNumbersOrTwoStrings,
            "Operands must be two numbers or two strings.",
        ),
        (RuntimeMessage::UndefinedVariable, "Undefined variable x."),
        (RuntimeMessage::UndefinedProperty, "Undefined property 'x'."),
        (RuntimeMessage::OnlyInstancesHaveProperties, "Only instances have properties."),
        (RuntimeMessage::CanOnlyCallFunctionsAndClasses, "Can only call functions and classes."),
        (
            RuntimeMessage::WrongArity { expected: 3, got: 10 },
            "Expected 3 arguments but got 10.",
        ),
        (RuntimeMessage::SuperclassMustBeAClass, "Superclass must be a class."),
        (RuntimeMessage::UnknownOperator, "Expression operator not right"),
    ];
    for (message, expected) in cases {
        let error = RuntimeError { message, token: at.clone() };
        assert_eq!(error.text(), expected);
        assert_eq!(error.report(), format!("{}\n[line 12]", expected));
        assert_eq!(error.clone().message, message);
    }
}

fn literal(value: LiteralValue) -> Expression {
    Expression::Literal(Literal { value, id: 0 })
}

#[test]
fn expressions_are_printed_in_prefix_form() {
    let printer = AstPrinter {};
    let sum = BinaryExpression {
        left: Box::new(literal(number("1"))),
        right: Box::new(literal(number("2.5"))),
        operator: token(TokenType::PLUS, "+", 1),
        id: 1,
    };
    assert_eq!(printer.visit_binary_expression(&sum), "(+ 1.0 2.5)");
    let negation = UnaryExpression {
        operator: token(TokenType::MINUS, "-", 1),
        expression: Box::new(Expression::Binary(sum)),
        id: 2,
    };
    assert_eq!(printer.visit_unary_expression(&negation), "(- (+ 1.0 2.5))");
    let group = Grouping { expression: Box::new(Expression::Unary(negation)), id: 3 };
    assert_eq!(printer.visit_grouping(&group), "(group (- (+ 1.0 2.5)))");
    let tree = Expression::Grouping(group);
    assert_eq!(printer.print(&tree), "(group (- (+ 1.0 2.5)))");
    assert_eq!(form(&tree), "(group (- (+ 1.0 2.5)))");
    assert_eq!(tree.expression_print(), "(group (- (+ 1.0 2.5)))");
    assert_eq!(tree.id(), 3);
    assert_eq!(printer.visit_literal(&Literal { value: string("s"), id: 0 }), "s");
    assert_eq!(printer.visit_literal(&Literal { value: LiteralValue::Nil, id: 0 }), "nil");
}

#[test]
fn parentheses_are_written_around_a_name_and_parts() {
    let printer = AstPrinter {};
    assert_eq!(printer.paranthesize("f", &vec![]), "(f)");
    assert_eq!(printer.paranthesize("f", &vec!["a".to_string()]), "(f a)");
    assert_eq!(
        printer.paranthesize("f", &vec!["a".to_string(), "(g b)".to_string()]),
        "(f a (g b))"
    );
}
