use lox::interpreter::Interpreter;
use lox::machine::{Action, Request};
use lox::parser::Parser;
use lox::resolver::Resolver;
use lox::scanner::tokenize;
use lox::token::TokenType;
use lox::value::LiteralValue;

/// What a run of a program left behind.
struct Run {
    output: Vec<String>,
    errors: Vec<String>,
    exit_code: i32,
}

fn number(text: &str) -> f64 {
    text.parse::<f64>().unwrap()
}

fn answer(request: &Request) -> LiteralValue {
    match request {
        Request::Numeral(a) => LiteralValue::Number(format!("{}", number(a))),
        Request::Negate(a) => LiteralValue::Number(format!("{}", -1.0 * number(a))),
        Request::Arithmetic(operator, a, b) => {
            let (a, b) = (number(a), number(b));
            let result = match operator {
                TokenType::PLUS => a + b,
                TokenType::MINUS => a - b,
                TokenType::STAR => a * b,
                TokenType::SLASH => a / b,
                _ => unreachable!(),
            };
            LiteralValue::Number(format!("{}", result))
        }
        Request::Compare(operator, a, b) => {
            let (a, b) = (number(a), number(b));
            LiteralValue::Boolean(match operator {
                TokenType::GREATER => a > b,
                TokenType::GREATER_EQUAL => a >= b,
                TokenType::LESS => a < b,
                TokenType::LESS_EQUAL => a <= b,
                TokenType::EQUAL_EQUAL => a == b,
                TokenType::BANG_EQUAL => a != b,
                _ => unreachable!(),
            })
        }
        Request::Clock => LiteralValue::Number(String::from("1700000000")),
    }
}

fn run(source: &str) -> Run {
    let mut run = Run { output: Vec::new(), errors: Vec::new(), exit_code: 0 };
    let scanned = tokenize(&source.chars().collect());
    if scanned.exit_code() != 0 {
        run.errors = scanned.errors.iter().map(|e| e.report()).collect();
        run.exit_code = 65;
        return run;
    }
    let mut parser = Parser::new(scanned.tokens);
    let program = match parser.parse() {
        Ok(program) => program,
        Err(_) => {
            run.errors = parser.diagnostics.iter().map(|e| e.report()).collect();
            run.exit_code = 65;
            return run;
        }
    };
    let mut resolver = Resolver::new();
    if let Err(error) = resolver.resolve_statements(&program) {
        run.errors.push(error.report());
        run.exit_code = 65;
        return run;
    }
    let mut interpreter = Interpreter::new(&program, resolver.locals);
    let mut reply = None;
    let mut steps = 0;
    loop {
        steps += 1;
        assert!(steps < 5_000_000, "the program does not end");
        match interpreter.step(reply.take()) {
            Action::Continue => {}
            Action::Print(text) => run.output.push(text),
            Action::Ask(request) => reply = Some(answer(&request)),
            Action::Done => break,
            Action::Fail(error) => {
                run.errors.push(error.report());
                run.exit_code = 70;
                break;
            }
        }
    }
    run
}

fn output(source: &str) -> Vec<String> {
    let run = run(source);
    assert_eq!(run.errors, Vec::<String>::new());
    assert_eq!(run.exit_code, 0);
    run.output
}

#[test]
fn closure_captures_the_binding_it_was_declared_with() {
    let source = "var x = \"global\";\nfun f() { print x; }\nf();\n{ var x = \"inner\"; f(); }\n";
    assert_eq!(output(source), vec!["global", "global"]);
}

#[test]
fn reading_a_local_in_its_own_initializer_is_a_static_error() {
    let run = run("{ var a = a; }");
    assert_eq!(run.exit_code, 65);
    assert_eq!(run.output, Vec::<String>::new());
    assert_eq!(
        run.errors,
        vec!["Can't read local variable in its own initializer.\n[line 1]"]
    );
}

#[test]
fn inheritance_and_super() {
    let source = "class A { hi() { print \"A\"; } }\nclass B < A { hi() { super.hi(); print \"B\"; } }\nB().hi();\n";
    assert_eq!(output(source), vec!["A", "B"]);
}

#[test]
fn initializer_sets_the_field_and_returns_the_instance() {
    let source = "class Point { init(x) { this.x = x; } }\nvar p = Point(3);\nprint p.x;\n";
    assert_eq!(output(source), vec!["3"]);
}

#[test]
fn recursive_function() {
    let source = "fun fact(n) { if (n < 2) return 1; return n * fact(n - 1); }\nprint fact(5);\n";
    assert_eq!(output(source), vec!["120"]);
}

#[test]
fn adding_a_string_and_a_number_is_a_runtime_error() {
    let run = run("print \"1\" + 1;");
    assert_eq!(run.exit_code, 70);
    assert_eq!(run.output, Vec::<String>::new());
    assert_eq!(
        run.errors,
        vec!["Operands must be two numbers or two strings.\n[line 1]"]
    );
}

#[test]
fn inner_scope_sees_inner_binding_and_outer_scope_the_outer() {
    let source = "var x = 1; { var x = 2; print x; } print x;";
    assert_eq!(output(source), vec!["2", "1"]);
}

#[test]
fn closure_returned_from_a_scope_keeps_its_binding() {
    let source = "fun make() { var x = \"inner\"; fun get() { return x; } return get; }\nvar x = \"outer\";\nvar g = make();\nprint g();\nprint x;";
    assert_eq!(output(source), vec!["inner", "outer"]);
}

#[test]
fn later_declaration_in_an_enclosing_scope_does_not_change_a_closure() {
    let source = "var a = \"global\";\n{\n  fun show() { print a; }\n  show();\n  var a = \"block\";\n  show();\n}";
    assert_eq!(output(source), vec!["global", "global"]);
}

#[test]
fn counter_closure_shares_its_variable_between_calls() {
    let source = "fun counter() { var n = 0; fun next() { n = n + 1; return n; } return next; }\nvar c = counter();\nprint c();\nprint c();\nprint c();";
    assert_eq!(output(source), vec!["1", "2", "3"]);
}

#[test]
fn only_nil_and_false_are_falsy() {
    let source = "if (nil) print \"a\"; else print \"b\";\nif (false) print \"a\"; else print \"b\";\nif (0) print \"a\"; else print \"b\";\nif (\"\") print \"a\"; else print \"b\";\nif (true) print \"a\"; else print \"b\";";
    assert_eq!(output(source), vec!["b", "b", "a", "a", "a"]);
}

#[test]
fn equality_of_primitives() {
    let source = "print nil == nil;\nprint true == true;\nprint 1 == 1;\nprint 1.0 == 1;\nprint \"a\" == \"a\";\nprint \"a\" == \"b\";\nprint 1 == \"1\";\nprint nil == false;\nprint 1 != 2;";
    assert_eq!(
        output(source),
        vec!["true", "true", "true", "true", "true", "false", "false", "false", "true"]
    );
}

#[test]
fn functions_classes_and_instances_are_equal_to_themselves_only() {
    let source = "fun f() {}\nfun g() {}\nclass A {}\nvar a = A();\nvar b = A();\nprint f == f;\nprint f == g;\nprint A == A;\nprint a == a;\nprint a == b;";
    assert_eq!(output(source), vec!["true", "false", "true", "true", "false"]);
}

#[test]
fn numbers_print_without_a_trailing_zero() {
    assert_eq!(output("print 42; print 42.5; print 42.0;"), vec!["42", "42.5", "42"]);
}

#[test]
fn arithmetic() {
    let source = "print 1 + 2 * 3;\nprint (1 + 2) * 3;\nprint 10 / 4;\nprint 7 - 10;\nprint -3;\nprint -(2 - 5);";
    assert_eq!(output(source), vec!["7", "9", "2.5", "-3", "-3", "3"]);
}

#[test]
fn comparison() {
    let source = "print 1 < 2;\nprint 2 <= 2;\nprint 1 > 2;\nprint 2 >= 3;";
    assert_eq!(output(source), vec!["true", "true", "false", "false"]);
}

#[test]
fn strings_concatenate() {
    assert_eq!(output("print \"foo\" + \"bar\";"), vec!["foobar"]);
}

#[test]
fn logical_operators_yield_the_deciding_operand() {
    let source = "print nil or \"yes\";\nprint 1 or 2;\nprint nil and 1;\nprint 1 and 2;\nprint false or false;";
    assert_eq!(output(source), vec!["yes", "1", "nil", "2", "false"]);
}

#[test]
fn logical_operators_short_circuit() {
    let source = "var a = 0;\nfun touch() { a = a + 1; return true; }\nfalse and touch();\ntrue or touch();\nprint a;\ntrue and touch();\nfalse or touch();\nprint a;";
    assert_eq!(output(source), vec!["0", "2"]);
}

#[test]
fn not_negates_truthiness() {
    assert_eq!(
        output("print !true; print !nil; print !0; print !\"x\";"),
        vec!["false", "true", "false", "false"]
    );
}

#[test]
fn while_loop() {
    let source = "var i = 0; while (i < 3) { print i; i = i + 1; }";
    assert_eq!(output(source), vec!["0", "1", "2"]);
}

#[test]
fn for_loop() {
    let source = "for (var i = 0; i < 3; i = i + 1) print i;";
    assert_eq!(output(source), vec!["0", "1", "2"]);
}

#[test]
fn for_loop_without_clauses_ends_by_return() {
    let source = "fun f() { var i = 0; for (;;) { i = i + 1; if (i > 4) return i; } }\nprint f();";
    assert_eq!(output(source), vec!["5"]);
}

#[test]
fn return_unwinds_through_blocks_and_loops() {
    let source = "fun f() { while (true) { { { return \"out\"; } } } }\nprint f();";
    assert_eq!(output(source), vec!["out"]);
}

#[test]
fn function_without_return_yields_nil() {
    assert_eq!(output("fun f() {} print f();"), vec!["nil"]);
}

#[test]
fn bare_return_yields_nil() {
    assert_eq!(output("fun f() { return; } print f();"), vec!["nil"]);
}

#[test]
fn values_are_printed_by_a_program() {
    let source = "fun f() {}\nclass A {}\nprint f;\nprint A;\nprint A();\nprint clock;\nprint nil;\nprint true;";
    assert_eq!(
        output(source),
        vec!["<fn f>", "A", "A instance", "<native fn>", "nil", "true"]
    );
}

#[test]
fn clock_asks_the_host_for_the_time() {
    assert_eq!(output("print clock();"), vec!["1700000000"]);
}

#[test]
fn fields_are_dynamic() {
    let source = "class A {}\nvar a = A();\na.x = 1;\na.y = \"two\";\nprint a.x;\nprint a.y;\na.x = 3;\nprint a.x;";
    assert_eq!(output(source), vec!["1", "two", "3"]);
}

#[test]
fn instances_are_shared() {
    let source = "class A {}\nvar a = A();\nvar b = a;\nb.x = 1;\nprint a.x;";
    assert_eq!(output(source), vec!["1"]);
}

#[test]
fn a_field_hides_a_method() {
    let source = "class A { m() { return \"method\"; } }\nvar a = A();\nprint a.m();\na.m = 1;\nprint a.m;";
    assert_eq!(output(source), vec!["method", "1"]);
}

#[test]
fn method_is_bound_to_its_instance() {
    let source = "class A { name() { return this.n; } }\nvar a = A();\na.n = \"a\";\nvar m = a.name;\nvar b = A();\nb.n = \"b\";\nb.name = m;\nprint b.name();";
    assert_eq!(output(source), vec!["a"]);
}

#[test]
fn methods_are_inherited() {
    let source = "class A { m() { return \"A.m\"; } n() { return \"A.n\"; } }\nclass B < A { n() { return \"B.n\"; } }\nvar b = B();\nprint b.m();\nprint b.n();";
    assert_eq!(output(source), vec!["A.m", "B.n"]);
}

#[test]
fn super_skips_the_own_method() {
    let source = "class A { m() { return \"A\"; } }\nclass B < A { m() { return \"B\"; } test() { return super.m(); } }\nclass C < B {}\nprint C().test();";
    assert_eq!(output(source), vec!["A"]);
}

#[test]
fn initializer_returns_this_even_when_called_again() {
    let source = "class A { init() { this.n = 1; } }\nvar a = A();\nvar b = a.init();\nprint a == b;";
    assert_eq!(output(source), vec!["true"]);
}

#[test]
fn initializer_with_bare_return_returns_this() {
    let source = "class A { init(x) { this.x = x; if (x > 0) return; this.x = 0; } }\nvar a = A(5);\nprint a.x;\nvar b = A(-5);\nprint b.x;\nprint a.init(1) == a;";
    assert_eq!(output(source), vec!["5", "0", "true"]);
}

#[test]
fn initializer_inherited_from_the_superclass_runs() {
    let source = "class A { init(x) { this.x = x; } }\nclass B < A {}\nprint B(7).x;";
    assert_eq!(output(source), vec!["7"]);
}

#[test]
fn calling_a_number_is_a_runtime_error() {
    let run = run("var x = 1;\nx();");
    assert_eq!(run.exit_code, 70);
    assert_eq!(run.errors, vec!["Can only call functions and classes.\n[line 2]"]);
}

#[test]
fn wrong_number_of_arguments_is_a_runtime_error() {
    let run1 = run("fun f(a, b) {}\nf(1);");
    assert_eq!(run1.exit_code, 70);
    assert_eq!(run1.errors, vec!["Expected 2 arguments but got 1.\n[line 2]"]);
    let run2 = run("class A { init(a) {} }\nA();");
    assert_eq!(run2.errors, vec!["Expected 1 arguments but got 0.\n[line 2]"]);
    let run3 = run("class A {}\nA(1, 2);");
    assert_eq!(run3.errors, vec!["Expected 0 arguments but got 2.\n[line 2]"]);
    let run4 = run("clock(1);");
    assert_eq!(run4.errors, vec!["Expected 0 arguments but got 1.\n[line 1]"]);
}

#[test]
fn undefined_variable_is_a_runtime_error() {
    let run1 = run("print x;");
    assert_eq!(run1.exit_code, 70);
    assert_eq!(run1.errors, vec!["Undefined variable x.\n[line 1]"]);
    let run2 = run("\nx = 1;");
    assert_eq!(run2.errors, vec!["Undefined variable x.\n[line 2]"]);
}

#[test]
fn undefined_property_is_a_runtime_error() {
    let run = run("class A {}\nprint A().x;");
    assert_eq!(run.exit_code, 70);
    assert_eq!(run.errors, vec!["Undefined property 'x'.\n[line 2]"]);
}

#[test]
fn missing_superclass_method_is_a_runtime_error() {
    let run = run("class A {}\nclass B < A { m() { super.m(); } }\nB().m();");
    assert_eq!(run.exit_code, 70);
    assert_eq!(run.errors, vec!["Undefined property 'm'.\n[line 2]"]);
}

#[test]
fn only_instances_have_properties() {
    let run1 = run("var x = 1;\nprint x.y;");
    assert_eq!(run1.errors, vec!["Only instances have properties.\n[line 2]"]);
    let run2 = run("var x = \"s\";\nx.y = 1;");
    assert_eq!(run2.errors, vec!["Only instances have properties.\n[line 2]"]);
}

#[test]
fn operands_must_be_numbers() {
    for source in ["1 - \"a\";", "nil * 2;", "true / 2;", "1 < \"2\";", "\"a\" >= \"b\";"] {
        let run = run(source);
        assert_eq!(run.exit_code, 70);
        assert_eq!(run.errors, vec!["Operands must be numbers.\n[line 1]"]);
    }
    let run = run("-\"a\";");
    assert_eq!(run.errors, vec!["Operand must be a number.\n[line 1]"]);
}

#[test]
fn superclass_must_be_a_class() {
    let run = run("var A = 1;\nclass B < A {}");
    assert_eq!(run.exit_code, 70);
    assert_eq!(run.errors, vec!["Superclass must be a class.\n[line 2]"]);
}

#[test]
fn output_before_a_runtime_error_is_kept() {
    let run = run("print 1;\nprint nil + 1;\nprint 2;");
    assert_eq!(run.output, vec!["1"]);
    assert_eq!(run.exit_code, 70);
}

#[test]
fn static_errors() {
    let cases = [
        ("return 1;", "Can't return from top-level code.\n[line 1]"),
        (
            "class A { init() { return 1; } }",
            "Can't return a value from an initializer.\n[line 1]",
        ),
        ("print this;", "Can't use 'this' outside of a class.\n[line 1]"),
        ("fun f() { super.m(); }", "Can't use 'super' outside of a class.\n[line 1]"),
        (
            "class A { m() { super.m(); } }",
            "Can't use 'super' in a class with no superclass.\n[line 1]",
        ),
        ("class A < A {}", "A class can't inherit from itself.\n[line 1]"),
        (
            "{ var a = 1;\nvar a = 2; }",
            "Already a variable with this name in this scope.\n[line 2]",
        ),
        (
            "fun f(a, a) {}",
            "Already a variable with this name in this scope.\n[line 1]",
        ),
    ];
    for (source, expected) in cases {
        let run = run(source);
        assert_eq!(run.exit_code, 65, "{}", source);
        assert_eq!(run.errors, vec![expected], "{}", source);
        assert_eq!(run.output, Vec::<String>::new());
    }
}

#[test]
fn redeclaring_a_global_is_no_error() {
    assert_eq!(output("var a = 1; var a = 2; print a;"), vec!["2"]);
}

#[test]
fn parse_errors() {
    let run1 = run("print 1");
    assert_eq!(run1.exit_code, 65);
    assert_eq!(run1.errors, vec!["[line 1] Error at end: Expect ';' after value."]);
    let run2 = run("var x = ;\nprint (1;\nprint 2;");
    assert_eq!(
        run2.errors,
        vec![
            "[line 1] Error at ';': Expect expression.",
            "[line 2] Error at ';': Expect ')' after expression.",
        ]
    );
    let run3 = run("1 = 2;");
    assert_eq!(run3.exit_code, 65);
    assert_eq!(run3.errors[0], "[line 1] Error at '=': Invalid assignment target.");
    let run4 = run("var x = 1");
    assert_eq!(
        run4.errors,
        vec!["[line 1] Error at end: Expect ';' after variable declaration."]
    );
}

#[test]
fn scan_errors() {
    let run1 = run("print \"abc;");
    assert_eq!(run1.exit_code, 65);
    assert_eq!(run1.errors, vec!["[line 1] Error: Unterminated string."]);
    let run2 = run("\n@");
    assert_eq!(run2.errors, vec!["[line 2] Error: Unexpected character: @"]);
}

#[test]
fn comments_are_skipped() {
    assert_eq!(output("// nothing\nprint 1; // one\n// end"), vec!["1"]);
}

#[test]
fn a_long_loop_runs_to_its_end() {
    let source = "var sum = 0; for (var i = 1; i <= 2000; i = i + 1) { sum = sum + i; } print sum;";
    assert_eq!(output(source), vec!["2001000"]);
}

#[test]
fn deep_recursion_needs_no_deep_stack() {
    let source = "fun count(n) { if (n == 0) return 0; return 1 + count(n - 1); }\nprint count(3000);";
    assert_eq!(output(source), vec!["3000"]);
}

#[test]
fn fibonacci() {
    let source = "fun fib(n) { if (n < 2) return n; return fib(n - 2) + fib(n - 1); }\nprint fib(15);";
    assert_eq!(output(source), vec!["610"]);
}

#[test]
fn division_by_zero_is_what_the_host_makes_of_it() {
    assert_eq!(output("print 1 / 0; print -1 / 0; print 0 / 0 == 0 / 0;"), vec!["inf", "-inf", "true"]);
}

#[test]
fn numbers_are_compared_by_value_not_by_numeral() {
    assert_eq!(
        output("print 1.50 == 1.5; print 0.1 + 0.2 == 0.3; print 2 == 2.0; print 007 == 7;"),
        vec!["true", "false", "true", "true"]
    );
}

#[test]
fn a_class_may_be_used_in_its_own_methods() {
    let source = "class Node { init(v) { this.v = v; this.next = nil; } push(v) { var n = Node(v); n.next = this; return n; } }\nvar list = Node(1).push(2).push(3);\nprint list.v; print list.next.v; print list.next.next.v; print list.next.next.next;";
    assert_eq!(output(source), vec!["3", "2", "1", "nil"]);
}

#[test]
fn methods_see_the_variables_around_the_class() {
    let source = "{ var greeting = \"hi\"; class A { m() { return greeting; } } print A().m(); }";
    assert_eq!(output(source), vec!["hi"]);
}

#[test]
fn a_local_function_closes_over_a_loop_variable() {
    let source = "var f; for (var i = 0; i < 3; i = i + 1) { var j = i; fun g() { return j; } if (i == 1) f = g; }\nprint f();";
    assert_eq!(output(source), vec!["1"]);
}

#[test]
fn a_printed_number_reads_back_as_the_same_number() {
    for numeral in ["0", "1", "42", "0.1", "0.5", "3.14159", "123456789.125", "0.000001", "9007199254740993", "1.7976931348623157"] {
        let printed = output(&format!("print {};", numeral));
        assert_eq!(printed.len(), 1);
        assert_eq!(printed[0].parse::<f64>().unwrap(), numeral.parse::<f64>().unwrap());
    }
}

#[test]
fn this_is_kept_by_a_function_inside_a_method() {
    let source = "class A { init() { this.n = 7; } get() { fun inner() { return this.n; } return inner; } }\nvar f = A().get();\nprint f();";
    assert_eq!(output(source), vec!["7"]);
}

#[test]
fn super_goes_up_one_class_at_a_time() {
    let source = "class A { m() { return \"A\"; } }\nclass B < A { m() { return \"B\" + super.m(); } }\nclass C < B { m() { return \"C\" + super.m(); } }\nprint C().m();";
    assert_eq!(output(source), vec!["CBA"]);
}

#[test]
fn a_parameter_hides_a_global() {
    let source = "var x = \"global\"; fun f(x) { return x; } print f(\"argument\"); print x;";
    assert_eq!(output(source), vec!["argument", "global"]);
}

#[test]
fn assignment_yields_the_value_and_writes_the_nearest_binding() {
    let source = "var a = 1; { var a = 2; { a = 3; print a; } print a; } print a; print a = 4;";
    assert_eq!(output(source), vec!["3", "3", "1", "4"]);
}

#[test]
fn assigning_to_an_undeclared_name_in_a_block_fails() {
    let run = run("{ a = 1; }");
    assert_eq!(run.exit_code, 70);
    assert_eq!(run.errors, vec!["Undefined variable a.\n[line 1]"]);
}

#[test]
fn a_bound_method_prints_as_its_function() {
    let source = "class A { m() {} }\nprint A().m;\nprint A().m == A().m;\nvar a = A(); var f = a.m; print f == f;";
    assert_eq!(output(source), vec!["<fn m>", "false", "true"]);
}

#[test]
fn strings_are_compared_by_content() {
    assert_eq!(
        output("print \"a\" + \"b\" == \"ab\"; print \"ab\" == \"a\" + \"c\"; print \"\" == \"\";"),
        vec!["true", "false", "true"]
    );
}

#[test]
fn arguments_are_evaluated_from_left_to_right() {
    let source = "var log = \"\"; fun note(x) { log = log + x; return x; }\nfun f(a, b, c) { return a + b + c; }\nprint f(note(\"1\"), note(\"2\"), note(\"3\"));\nprint log;";
    assert_eq!(output(source), vec!["123", "123"]);
}

#[test]
fn operands_are_evaluated_before_the_operator_is_applied() {
    let run = run("fun f() { print \"left\"; return 1; }\nfun g() { print \"right\"; return \"s\"; }\nf() - g();");
    assert_eq!(run.output, vec!["left", "right"]);
    assert_eq!(run.errors, vec!["Operands must be numbers.\n[line 3]"]);
}

#[test]
fn the_object_of_a_write_must_be_an_instance_before_the_value_is_evaluated() {
    let run = run("fun v() { print \"value\"; return 1; }\nvar x = 1;\nx.y = v();");
    assert_eq!(run.output, Vec::<String>::new());
    assert_eq!(run.errors, vec!["Only instances have properties.\n[line 3]"]);
}

#[test]
fn a_class_name_is_in_scope_in_its_own_methods() {
    let source = "class A { make() { return A(); } }\nprint A().make();";
    assert_eq!(output(source), vec!["A instance"]);
}

#[test]
fn a_later_method_of_the_same_name_stays() {
    let source = "class A { m() { return 1; } m() { return 2; } }\nprint A().m();";
    assert_eq!(output(source), vec!["2"]);
}

#[test]
fn an_empty_statement_list_in_a_function_and_a_block() {
    assert_eq!(output("fun f() {} {} f(); print 1;"), vec!["1"]);
}

#[test]
fn nested_calls_come_back_to_the_right_environment() {
    let source = "var a = \"global\";\nfun outer() { var a = \"outer\"; fun inner() { var b = a; return b; } var r = inner(); return r + a; }\nprint outer(); print a;";
    assert_eq!(output(source), vec!["outerouter", "global"]);
}
