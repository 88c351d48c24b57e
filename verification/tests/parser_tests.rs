use lox::ast::{Expression, ForStatement, Literal, Statement, ThisExpression};
use lox::grammar::{FunctionKind, ParseMessage};
use lox::parser::Parser;
use lox::printer::form;
use lox::scanner::tokenize;
use lox::token::{Token, TokenType};
use lox::value::LiteralValue;

fn token(kind: TokenType, text: &str) -> Token {
    Token::new(kind, text, 1)
}

fn parser(source: &str) -> Parser {
    Parser::new(tokenize(&source.chars().collect()).tokens)
}

fn expression(source: &str) -> Expression {
    let mut parser = parser(source);
    let e = parser.expression().unwrap();
    assert!(parser.diagnostics.is_empty());
    e
}

fn program(source: &str) -> Vec<Statement> {
    let mut parser = parser(source);
    let statements = parser.parse().unwrap();
    assert!(parser.diagnostics.is_empty());
    statements
}

fn errors(source: &str) -> Vec<String> {
    let mut parser = parser(source);
    assert!(parser.parse().is_err());
    parser.diagnostics.iter().map(|e| e.report()).collect()
}

fn prefix(source: &str) -> String {
    form(&expression(source))
}

#[test]
fn parses_a_print_statement() {
    let tokens = vec![
        token(TokenType::PRINT, "print"),
        token(TokenType::NUMBER, "1"),
        token(TokenType::PLUS, "+"),
        token(TokenType::NUMBER, "2"),
        token(TokenType::SEMICOLON, ";"),
        token(TokenType::EOF, "EOF"),
    ];
    let mut parser = Parser::new(tokens);
    let statements = parser.parse().unwrap();
    assert_eq!(statements.len(), 1);
    match &statements[0] {
        Statement::Print(p) => match &p.expression {
            Expression::Binary(b) => {
                assert_eq!(b.operator.token_type, TokenType::PLUS);
                assert_eq!(b.id, 2);
                match (&*b.left, &*b.right) {
                    (Expression::Literal(l), Expression::Literal(r)) => {
                        assert_eq!(l.id, 0);
                        assert_eq!(r.id, 1);
                        assert!(matches!(&l.value, LiteralValue::Number(n) if n == "1"));
                        assert!(matches!(&r.value, LiteralValue::Number(n) if n == "2"));
                    }
                    _ => panic!("expected two literals"),
                }
            }
            _ => panic!("expected a binary expression"),
        },
        _ => panic!("expected a print statement"),
    }
    assert_eq!(parser.next_id, 3);
    assert_eq!(parser.current, 5);
}

#[test]
fn precedence_and_associativity() {
    assert_eq!(prefix("1 + 2 * 3"), "(+ 1.0 (* 2.0 3.0))");
    assert_eq!(prefix("1 * 2 + 3"), "(+ (* 1.0 2.0) 3.0)");
    assert_eq!(prefix("1 - 2 - 3"), "(- (- 1.0 2.0) 3.0)");
    assert_eq!(prefix("8 / 4 / 2"), "(/ (/ 8.0 4.0) 2.0)");
    assert_eq!(prefix("1 < 2 == 3 >= 4"), "(== (< 1.0 2.0) (>= 3.0 4.0))");
    assert_eq!(prefix("1 + 2 < 3 * 4"), "(< (+ 1.0 2.0) (* 3.0 4.0))");
    assert_eq!(prefix("a or b and c"), "(or a (and b c))");
    assert_eq!(prefix("a and b or c"), "(or (and a b) c)");
    assert_eq!(prefix("a == b and c != d"), "(and (== a b) (!= c d))");
    assert_eq!(prefix("!-a"), "(! (- a))");
    assert_eq!(prefix("-a * b"), "(* (- a) b)");
    assert_eq!(prefix("(1 + 2) * 3"), "(* (group (+ 1.0 2.0)) 3.0)");
    assert_eq!(prefix("a = b = c"), "(= a (= b c))");
    assert_eq!(prefix("a = b or c"), "(= a (or b c))");
}

#[test]
fn primary_expressions() {
    assert_eq!(prefix("true"), "true");
    assert_eq!(prefix("false"), "false");
    assert_eq!(prefix("nil"), "nil");
    assert_eq!(prefix("\"text\""), "text");
    assert_eq!(prefix("12.5"), "12.5");
    assert_eq!(prefix("name"), "name");
    assert_eq!(prefix("this"), "this");
    assert_eq!(prefix("super.method"), "(super method)");
    assert_eq!(prefix("(nil)"), "(group nil)");
}

#[test]
fn calls_and_properties() {
    assert_eq!(prefix("f()"), "(call f)");
    assert_eq!(prefix("f(1, a)"), "(call f 1.0 a)");
    assert_eq!(prefix("f(1)(2)"), "(call (call f 1.0) 2.0)");
    assert_eq!(prefix("a.b.c"), "(. (. a b) c)");
    assert_eq!(prefix("a.b(c).d"), "(. (call (. a b) c) d)");
    assert_eq!(prefix("a.b = c"), "(= (. a b) c)");
    assert_eq!(prefix("a.b.c = d"), "(= (. (. a b) c) d)");
    assert_eq!(prefix("-f(1)"), "(- (call f 1.0))");
}

#[test]
fn identities_increase_with_construction() {
    match expression("(a + b) * c") {
        Expression::Binary(product) => {
            assert_eq!(product.id, 5);
            match (*product.left, *product.right) {
                (Expression::Grouping(group), Expression::Variable(c)) => {
                    assert_eq!(group.id, 3);
                    assert_eq!(c.id, 4);
                    match *group.expression {
                        Expression::Binary(sum) => {
                            assert_eq!(sum.id, 2);
                            assert_eq!(sum.left.id(), 0);
                            assert_eq!(sum.right.id(), 1);
                        }
                        _ => panic!("expected a sum"),
                    }
                }
                _ => panic!("expected a group and a name"),
            }
        }
        _ => panic!("expected a product"),
    }
}

#[test]
fn assignment_takes_a_new_identity() {
    match expression("a = 1") {
        Expression::Assignment(n) => {
            assert_eq!(n.name.token_value, "a");
            assert_eq!(n.value.id(), 1);
            assert_eq!(n.id, 2);
        }
        _ => panic!("expected an assignment"),
    }
    match expression("a.b = 1") {
        Expression::SetField(n) => {
            assert_eq!(n.name.token_value, "b");
            assert_eq!(n.expression.id(), 0);
            assert_eq!(n.value.id(), 2);
            assert_eq!(n.id, 3);
        }
        _ => panic!("expected a write to a property"),
    }
}

#[test]
fn invalid_assignment_target_is_reported_and_the_target_kept() {
    let mut parser = parser("1 = 2; print 3;");
    let tree = parser.expression().unwrap();
    assert_eq!(form(&tree), "1.0");
    assert_eq!(parser.diagnostics.len(), 1);
    assert_eq!(parser.diagnostics[0].message, ParseMessage::InvalidAssignmentTarget);
    assert_eq!(parser.diagnostics[0].token.token_type, TokenType::EQUAL);
    assert_eq!(
        parser.diagnostics[0].report(),
        "[line 1] Error at '=': Invalid assignment target."
    );
}

#[test]
fn statements() {
    let statements = program(
        "var a; var b = 1; print b; b; { a; } if (a) b; if (a) b; else a; while (a) b; return; return a;",
    );
    assert_eq!(statements.len(), 10);
    assert!(matches!(&statements[0], Statement::Variable(v) if v.initializer.is_none() && v.name.token_value == "a"));
    assert!(matches!(&statements[1], Statement::Variable(v) if v.initializer.is_some()));
    assert!(matches!(&statements[2], Statement::Print(_)));
    assert!(matches!(&statements[3], Statement::Expression(_)));
    assert!(matches!(&statements[4], Statement::Block(b) if b.statements.len() == 1));
    assert!(matches!(&statements[5], Statement::If(i) if i.else_statement.is_none()));
    assert!(matches!(&statements[6], Statement::If(i) if i.else_statement.is_some()));
    assert!(matches!(&statements[7], Statement::While(_)));
    assert!(matches!(&statements[8], Statement::Return(r) if r.value.is_none() && r.keyword.token_type == TokenType::RETURN));
    assert!(matches!(&statements[9], Statement::Return(r) if r.value.is_some()));
}

#[test]
fn else_belongs_to_the_nearest_if() {
    let statements = program("if (a) if (b) c; else d;");
    match &statements[0] {
        Statement::If(outer) => {
            assert!(outer.else_statement.is_none());
            assert!(matches!(&*outer.then_statement, Statement::If(inner) if inner.else_statement.is_some()));
        }
        _ => panic!("expected an if"),
    }
}

#[test]
fn function_declaration() {
    let statements = program("fun add(a, b) { return a + b; }");
    match &statements[0] {
        Statement::Function(f) => {
            assert_eq!(f.name.token_value, "add");
            let names: Vec<&str> = f.parameters.iter().map(|p| p.token_value.as_str()).collect();
            assert_eq!(names, vec!["a", "b"]);
            assert_eq!(f.body.len(), 1);
        }
        _ => panic!("expected a function"),
    }
}

#[test]
fn class_declaration() {
    let statements = program("class B < A { init(x) {} m() { return 1; } }");
    match &statements[0] {
        Statement::Class(c) => {
            assert_eq!(c.name.token_value, "B");
            let parent = c.super_class.as_ref().unwrap();
            assert_eq!(parent.variable.token_value, "A");
            assert_eq!(parent.id, 0);
            let names: Vec<&str> = c.methods.iter().map(|m| m.name.token_value.as_str()).collect();
            assert_eq!(names, vec!["init", "m"]);
            assert_eq!(c.methods[0].parameters.len(), 1);
        }
        _ => panic!("expected a class"),
    }
    let plain = program("class A {}");
    assert!(matches!(&plain[0], Statement::Class(c) if c.super_class.is_none() && c.methods.is_empty()));
}

#[test]
fn for_loop_becomes_a_block_and_a_while_loop() {
    let statements = program("for (var i = 0; i < 3; i = i + 1) print i;");
    match &statements[0] {
        Statement::Block(outer) => {
            assert_eq!(outer.statements.len(), 2);
            assert!(matches!(&outer.statements[0], Statement::Variable(_)));
            match &outer.statements[1] {
                Statement::While(w) => {
                    assert_eq!(form(&w.condition), "(< i 3.0)");
                    match &*w.body {
                        Statement::Block(body) => {
                            assert_eq!(body.statements.len(), 2);
                            assert!(matches!(&body.statements[0], Statement::Print(_)));
                            assert!(matches!(&body.statements[1], Statement::Expression(e) if form(&e.expression) == "(= i (+ i 1.0))"));
                        }
                        _ => panic!("expected a block"),
                    }
                }
                _ => panic!("expected a while loop"),
            }
        }
        _ => panic!("expected a block"),
    }
}

#[test]
fn for_loop_without_clauses_loops_on_true() {
    let mut parser = parser("for (;;) print 1;");
    let statements = parser.parse().unwrap();
    match &statements[0] {
        Statement::While(w) => {
            match &w.condition {
                Expression::Literal(l) => {
                    assert!(matches!(l.value, LiteralValue::Boolean(true)));
                    assert_eq!(l.id, 1);
                }
                _ => panic!("expected a constant"),
            }
            assert!(matches!(&*w.body, Statement::Print(_)));
        }
        _ => panic!("expected a while loop"),
    }
    assert_eq!(parser.next_id, 2);
}

#[test]
fn for_loop_with_some_clauses() {
    let with_condition = program("for (; a;) b;");
    assert!(matches!(&with_condition[0], Statement::While(w) if form(&w.condition) == "a"));
    let with_increment = program("for (;; a) b;");
    match &with_increment[0] {
        Statement::While(w) => {
            assert!(matches!(&*w.body, Statement::Block(b) if b.statements.len() == 2));
        }
        _ => panic!("expected a while loop"),
    }
    let with_initializer = program("for (a;;) b;");
    match &with_initializer[0] {
        Statement::Block(b) => {
            assert!(matches!(&b.statements[0], Statement::Expression(_)));
            assert!(matches!(&b.statements[1], Statement::While(_)));
        }
        _ => panic!("expected a block"),
    }
}

#[test]
fn desugar_by_hand() {
    let body = Statement::Print(lox::ast::PrintStatement {
        expression: Expression::Literal(Literal { value: LiteralValue::Nil, id: 1 }),
    });
    let parts = ForStatement {
        initializer: None,
        condition: None,
        increment: None,
        body: Box::new(body),
    };
    match parts.desugar(9) {
        Statement::While(w) => {
            assert!(matches!(&w.condition, Expression::Literal(l) if l.id == 9 && matches!(l.value, LiteralValue::Boolean(true))));
            assert!(matches!(&*w.body, Statement::Print(_)));
        }
        _ => panic!("expected a while loop"),
    }
}

#[test]
fn errors_are_reported_with_line_and_token() {
    assert_eq!(errors("print 1"), vec!["[line 1] Error at end: Expect ';' after value."]);
    assert_eq!(errors("(1"), vec!["[line 1] Error at end: Expect ')' after expression."]);
    assert_eq!(errors("\n\n+"), vec!["[line 3] Error at '+': Expect expression."]);
    assert_eq!(errors("var 1;"), vec!["[line 1] Error at '1': Expect variable name."]);
    assert_eq!(
        errors("var a = 1"),
        vec!["[line 1] Error at end: Expect ';' after variable declaration."]
    );
    assert_eq!(errors("{ a;"), vec!["[line 1] Error at end: Expect '}' after block."]);
    assert_eq!(errors("if a"), vec!["[line 1] Error at 'a': Expect '(' after 'if'."]);
    assert_eq!(errors("if (a b"), vec!["[line 1] Error at 'b': Expect ')' after if condition."]);
    assert_eq!(errors("while a"), vec!["[line 1] Error at 'a': Expect '(' after 'while'."]);
    assert_eq!(errors("while (a b"), vec!["[line 1] Error at 'b': Expect ')' after condition."]);
    assert_eq!(errors("for a"), vec!["[line 1] Error at 'a': Expect '(' after 'for'."]);
    assert_eq!(
        errors("for (;a b"),
        vec!["[line 1] Error at 'b': Expect ';' after loop condition."]
    );
    assert_eq!(
        errors("for (;;a b"),
        vec!["[line 1] Error at 'b': Expect ')' after for clauses."]
    );
    assert_eq!(
        errors("return a b"),
        vec!["[line 1] Error at 'b': Expect ';' after return value."]
    );
    assert_eq!(errors("f(a b"), vec!["[line 1] Error at 'b': Expect ')' after arguments."]);
    assert_eq!(errors("a.1"), vec!["[line 1] Error at '1': Expect property name after '.'."]);
    assert_eq!(errors("super x"), vec!["[line 1] Error at 'x': Expect '.' after 'super'."]);
    assert_eq!(errors("super.1"), vec!["[line 1] Error at '1': Expect superclass method name."]);
    assert_eq!(errors("fun 1"), vec!["[line 1] Error at '1': Expect function name."]);
    assert_eq!(errors("fun f 1"), vec!["[line 1] Error at '1': Expect '(' after function name."]);
    assert_eq!(errors("fun f(1"), vec!["[line 1] Error at '1': Expect parameter name."]);
    assert_eq!(errors("fun f(a 1"), vec!["[line 1] Error at '1': Expect ')' after parameters"]);
    assert_eq!(errors("fun f() 1"), vec!["[line 1] Error at '1': Expect '{' before function body."]);
    assert_eq!(errors("class 1"), vec!["[line 1] Error at '1': Expect class name."]);
    assert_eq!(errors("class A < 1"), vec!["[line 1] Error at '1': Expect superclass name."]);
    assert_eq!(errors("class A 1"), vec!["[line 1] Error at '1': Expect '{' before class body."]);
    assert_eq!(errors("class A { 1"), vec!["[line 1] Error at '1': Expect method name."]);
    assert_eq!(errors("class A { m 1"), vec!["[line 1] Error at '1': Expect '(' after method name."]);
    assert_eq!(errors("class A { m() 1"), vec!["[line 1] Error at '1': Expect '{' before method body."]);
    assert_eq!(errors("class A { m() {}"), vec!["[line 1] Error at end: Expect '}' after class body."]);
}

#[test]
fn parse_message_texts() {
    assert_eq!(ParseMessage::ExpectExpression.text(), "Expect expression.");
    assert_eq!(ParseMessage::TooManyArguments.text(), "Can't have more than 255 arguments.");
    assert_eq!(ParseMessage::TooManyParameters.text(), "Can't have more than 255 parameters.");
    assert_eq!(ParseMessage::ExpectName(FunctionKind::Method).text(), "Expect method name.");
    assert_eq!(
        ParseMessage::ExpectLeftBraceBeforeBody(FunctionKind::Function).text(),
        "Expect '{' before function body."
    );
    assert_eq!(FunctionKind::Function.text(), "function");
    assert_eq!(FunctionKind::Method.text(), "method");
}

#[test]
fn parsing_goes_on_behind_an_error() {
    let mut parser = parser("var = 1;\nprint 2;\nprint ;\nprint 4;");
    let result = parser.parse();
    assert_eq!(result.unwrap_err().message, ParseMessage::ExpectVariableName);
    let reports: Vec<String> = parser.diagnostics.iter().map(|e| e.report()).collect();
    assert_eq!(
        reports,
        vec![
            "[line 1] Error at '=': Expect variable name.",
            "[line 3] Error at ';': Expect expression.",
        ]
    );
    assert_eq!(parser.tokens[parser.current].token_type, TokenType::EOF);
}

#[test]
fn recovery_stops_behind_a_semicolon_or_in_front_of_a_statement() {
    let mut behind = parser("+ 1 2 ; 3");
    behind.synchronize();
    assert_eq!(behind.current, 4);
    let mut in_front = parser("+ 1 2 print 3;");
    in_front.synchronize();
    assert_eq!(in_front.current, 3);
    let mut at_end = parser("");
    at_end.synchronize();
    assert_eq!(at_end.current, 0);
    let mut to_end = parser("+ 1 2");
    to_end.synchronize();
    assert_eq!(to_end.current, 3);
    assert!(to_end.is_at_end());
}

#[test]
fn more_than_255_arguments_are_reported() {
    let mut source = String::from("f(");
    for i in 0..256 {
        if i > 0 {
            source.push_str(", ");
        }
        source.push_str("a");
    }
    source.push_str(");");
    let mut parser = parser(&source);
    assert!(parser.parse().is_err());
    assert_eq!(parser.diagnostics[0].message, ParseMessage::TooManyArguments);

    let mut fine = String::from("f(");
    for i in 0..255 {
        if i > 0 {
            fine.push_str(", ");
        }
        fine.push_str("a");
    }
    fine.push_str(");");
    let statements = program(&fine);
    match &statements[0] {
        Statement::Expression(s) => match &s.expression {
            Expression::Call(c) => assert_eq!(c.arguments.len(), 255),
            _ => panic!("expected a call"),
        },
        _ => panic!("expected an expression statement"),
    }
}

#[test]
fn more_than_255_parameters_are_reported() {
    let mut source = String::from("fun f(");
    for i in 0..256 {
        if i > 0 {
            source.push_str(", ");
        }
        source.push_str(&format!("p{}", i));
    }
    source.push_str(") {}");
    let mut parser = parser(&source);
    assert!(parser.parse().is_err());
    assert_eq!(parser.diagnostics[0].message, ParseMessage::TooManyParameters);
}

#[test]
fn cursor_helpers() {
    let mut parser = parser("a + b");
    assert_eq!(parser.peek().token_value, "a");
    assert!(parser.check(TokenType::IDENTIFIER));
    assert!(!parser.check(TokenType::PLUS));
    assert!(!parser.is_at_end());
    assert!(!parser.match_tokens(&vec![TokenType::PLUS, TokenType::MINUS]));
    assert_eq!(parser.current, 0);
    assert!(parser.match_tokens(&vec![TokenType::PLUS, TokenType::IDENTIFIER]));
    assert_eq!(parser.current, 1);
    assert_eq!(parser.previous().token_value, "a");
    parser.advance();
    parser.advance();
    assert!(parser.is_at_end());
    parser.advance();
    assert_eq!(parser.current, 3);
    let consumed = parser.consume(TokenType::PLUS, ParseMessage::ExpectExpression);
    assert_eq!(consumed.unwrap_err().message, ParseMessage::ExpectExpression);
    assert_eq!(parser.diagnostics.len(), 1);
}

#[test]
fn nodes_made_by_hand_keep_what_they_are_given() {
    let literal = Literal::new(LiteralValue::Boolean(true));
    assert!(matches!(literal.value, LiteralValue::Boolean(true)));
    let nothing = Literal::default();
    assert!(matches!(nothing.value, LiteralValue::Nil));
    let this = ThisExpression::new(token(TokenType::THIS, "this"));
    assert_eq!(this.value.token_type, TokenType::THIS);
    assert_eq!(this.value.token_value, "this");
}

fn collect(e: &Expression, ids: &mut Vec<u64>) {
    match e {
        Expression::Literal(_) | Expression::Variable(_) | Expression::This(_) | Expression::Super(_) => {}
        Expression::Grouping(n) => collect(&n.expression, ids),
        Expression::Unary(n) => collect(&n.expression, ids),
        Expression::Binary(n) => {
            collect(&n.left, ids);
            collect(&n.right, ids);
        }
        Expression::Logical(n) => {
            collect(&n.left, ids);
            collect(&n.right, ids);
        }
        Expression::Assignment(n) => collect(&n.value, ids),
        Expression::Call(n) => {
            collect(&n.callee, ids);
            for a in &n.arguments {
                collect(a, ids);
            }
        }
        Expression::Get(n) => collect(&n.expression, ids),
        Expression::SetField(n) => {
            collect(&n.expression, ids);
            collect(&n.value, ids);
        }
    }
    ids.push(e.id());
}

fn collect_all(statements: &[Statement], ids: &mut Vec<u64>) {
    for s in statements {
        match s {
            Statement::Expression(n) => collect(&n.expression, ids),
            Statement::Print(n) => collect(&n.expression, ids),
            Statement::Variable(n) => {
                if let Some(e) = &n.initializer {
                    collect(e, ids)
                }
            }
            Statement::Block(n) => collect_all(&n.statements, ids),
            Statement::If(n) => {
                collect(&n.condition, ids);
                collect_all(std::slice::from_ref(&*n.then_statement), ids);
                if let Some(other) = &n.else_statement {
                    collect_all(std::slice::from_ref(&**other), ids);
                }
            }
            Statement::While(n) => {
                collect(&n.condition, ids);
                collect_all(std::slice::from_ref(&*n.body), ids);
            }
            Statement::Function(n) => collect_all(&n.body, ids),
            Statement::Return(n) => {
                if let Some(e) = &n.value {
                    collect(e, ids)
                }
            }
            Statement::Class(n) => {
                if let Some(v) = &n.super_class {
                    ids.push(v.id);
                }
                for m in &n.methods {
                    collect_all(&m.body, ids);
                }
            }
        }
    }
}

#[test]
fn no_identity_is_given_twice() {
    let source = "class A < B { init(x) { this.x = x; super.init(x, 1 + 2); } m() { return this.x.y(1)(2); } }\nfor (var i = 0; i < 10; i = i + 1) { print i * (i - 1); }\nfor (;;) a.b = c = d or e and !f;\nfun g(a, b) { if (a) return b; else { while (a) a = a - 1; } }\nvar z = g(1, 2) == nil;";
    let mut parser = parser(source);
    let statements = parser.parse().unwrap();
    let mut ids = Vec::new();
    collect_all(&statements, &mut ids);
    assert!(ids.len() > 40);
    let mut sorted = ids.clone();
    sorted.sort();
    sorted.dedup();
    assert_eq!(sorted.len(), ids.len());
    assert!(ids.iter().all(|id| *id < parser.next_id));
}

#[test]
fn a_copy_of_a_tree_is_the_same_tree() {
    let source = "class A < B { init(x) { this.x = x; } m() { return super.m(1, 2)(3).y; } }\nfor (var i = 0; i < 10; i = i + 1) { print -i * (i - 1) or !i; }\nfun g(a, b) { if (a) return b; else { while (a) a = nil; } return; }\nvar z;";
    let statements = program(source);
    let copies: Vec<Statement> = statements.iter().map(|s| s.clone()).collect();
    assert_eq!(format!("{:?}", copies), format!("{:?}", statements));
    let tree = expression("f(a, b.c)(1 + 2 * 3).d = (e = \"s\")");
    let copy = tree.clone();
    assert_eq!(form(&copy), form(&tree));
    assert_eq!(format!("{:?}", copy), format!("{:?}", tree));
    let values = lox::copy::clone_expressions(&vec![tree, copy]);
    assert_eq!(values.len(), 2);
    assert_eq!(form(&values[0]), form(&values[1]));
    let names = lox::copy::clone_tokens(&vec![token(TokenType::IDENTIFIER, "a")]);
    assert_eq!(names[0].token_value, "a");
}

#[test]
fn what_is_parsed_from_scanned_text_neither_declares_nor_assigns_this() {
    let sources = [
        "var a = 1; a = 2; { var b = a; b = b + 1; }",
        "class A < B { init(x) { this.x = x; return; } m() { return super.m(this); } }",
        "fun f(a, b) { for (var i = 0; i < a; i = i + 1) { b = b + i; } return b; }",
        "for (;;) print 1;",
        "if (a) b = 1; else while (c) d = e = f;",
    ];
    for source in sources {
        let scanned = lox::scanner::tokenize(&source.chars().collect());
        assert!(scanned.errors.is_empty());
        let statements = Parser::new(scanned.tokens).parse().expect("the source is a program");
        assert!(lox::construction::statements_are_plain(&statements));
    }
}

#[test]
fn this_is_no_target_of_an_assignment_and_no_name_of_a_declaration() {
    for source in ["this = 1;", "var this = 1;", "fun this() {}", "class this {}"] {
        let scanned = lox::scanner::tokenize(&source.chars().collect());
        assert!(scanned.errors.is_empty());
        assert!(Parser::new(scanned.tokens).parse().is_err());
    }
}

#[test]
fn an_error_that_was_reported_stays_reported() {
    let mut parser = parser("var = 1; print 2; print ; var a = 3");
    assert!(parser.declaration().is_err());
    let first: Vec<String> = parser.diagnostics.iter().map(|e| e.report()).collect();
    assert_eq!(first, vec!["[line 1] Error at '=': Expect variable name."]);
    assert!(parser.declaration().is_ok());
    let second: Vec<String> = parser.diagnostics.iter().map(|e| e.report()).collect();
    assert_eq!(second, first);
    assert!(parser.declaration().is_err());
    assert_eq!(parser.diagnostics.len(), 2);
    assert_eq!(parser.diagnostics[0].report(), first[0]);
    assert!(parser.declaration().is_err());
    assert_eq!(parser.diagnostics.len(), 3);
    assert_eq!(parser.diagnostics[0].report(), first[0]);
    assert_eq!(
        parser.diagnostics[1].report(),
        "[line 1] Error at ';': Expect expression."
    );
    assert_eq!(
        parser.diagnostics[2].report(),
        "[line 1] Error at end: Expect ';' after variable declaration."
    );
}
