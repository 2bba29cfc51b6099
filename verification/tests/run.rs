use rlox::{interpret, Halt, Interpretation};
use rlox::error::LoxError;

const FUEL: u64 = 10_000_000;

fn run(src: &str) -> Interpretation {
    interpret(src, FUEL)
}

fn out(src: &str) -> Vec<String> {
    let r = run(src);
    match r.halt {
        Halt::Done => {}
        other => panic!("expected a clean run, got {:?} (stderr: {:?})", other, r.diagnostics),
    }
    assert!(r.diagnostics.is_empty());
    r.output
}

fn runtime_error(src: &str) -> (String, u64) {
    let r = run(src);
    match r.halt {
        Halt::Faulted(LoxError::Runtime(m, l)) => (m, l),
        other => panic!("expected a runtime error, got {:?}", other),
    }
}

fn parse_fault(src: &str) -> String {
    let r = run(src);
    match r.halt {
        Halt::Faulted(LoxError::Compile(m)) => m,
        other => panic!("expected a compile error, got {:?}", other),
    }
}

#[test]
fn arithmetic_precedence() {
    assert_eq!(out("print 1 + 2 * 3;"), vec!["7"]);
}

#[test]
fn string_concatenation() {
    assert_eq!(out("var a = \"hi\"; print a + \" there\";"), vec!["hi there"]);
}

#[test]
fn block_shadowing() {
    assert_eq!(out("var a=1; { var a=2; print a; } print a;"), vec!["2", "1"]);
}

#[test]
fn recursive_fibonacci() {
    assert_eq!(
        out("fun f(n){ if (n<=1) return n; return f(n-1)+f(n-2);} print f(10);"),
        vec!["55"]
    );
}

#[test]
fn closure_counter() {
    assert_eq!(
        out(
            "fun make(){ var i=0; fun inc(){ i = i+1; return i; } return inc; } \
             var c=make(); print c(); print c();"
        ),
        vec!["1", "2"]
    );
}

#[test]
fn add_type_error() {
    let (m, l) = runtime_error("print \"a\" + 1;");
    assert_eq!(m, "Operands must be two numbers or two strings.");
    assert_eq!(l, 1);
}

#[test]
fn arity_mismatch() {
    let (m, l) = runtime_error("fun f(a,b){} f(1);");
    assert_eq!(m, "Expected 2 arguments but got 1.");
    assert_eq!(l, 1);
}

#[test]
fn arity_message_counts_both_ways() {
    let (m, _) = runtime_error("fun g(x){} g(1, 2, 3);");
    assert_eq!(m, "Expected 1 arguments but got 3.");
}

#[test]
fn double_negation_is_truthiness() {
    assert_eq!(out("print !!0; print !!nil; print !!\"\"; print !!false;"),
        vec!["true", "false", "true", "false"]);
}

#[test]
fn logical_operators_return_operands() {
    assert_eq!(out("print 1 or 2;"), vec!["1"]);
    assert_eq!(out("print nil or 2;"), vec!["2"]);
    assert_eq!(out("print nil and 2;"), vec!["nil"]);
    assert_eq!(out("print 1 and 2;"), vec!["2"]);
}

#[test]
fn var_then_read_same_scope() {
    assert_eq!(out("var x = 41 + 1; print x;"), vec!["42"]);
    assert_eq!(out("{ var y = \"inner\"; print y; }"), vec!["inner"]);
}

#[test]
fn closures_use_lexical_scope() {
    // The captured scope, not the caller's, is read and written through.
    assert_eq!(
        out(
            "var x = \"global\"; \
             fun outer() { var x = \"outer\"; fun inner() { print x; } inner(); } \
             outer(); print x;"
        ),
        vec!["outer", "global"]
    );
}

#[test]
fn while_loop_counts() {
    assert_eq!(out("var i = 0; while (i < 3) { print i; i = i + 1; }"), vec!["0", "1", "2"]);
}

#[test]
fn for_loop_desugars() {
    assert_eq!(out("for (var i = 0; i < 3; i = i + 1) print i;"), vec!["0", "1", "2"]);
}

#[test]
fn for_loop_without_condition_breaks_by_return() {
    assert_eq!(
        out("fun f() { for (var i = 0;; i = i + 1) { if (i > 1) return i; } } print f();"),
        vec!["2"]
    );
}

#[test]
fn number_display_forms() {
    assert_eq!(out("print 0.5; print 2.50; print 100;"), vec!["0.5", "2.5", "100"]);
    assert_eq!(out("print 0.1 + 0.2;"), vec!["0.30000000000000004"]);
    assert_eq!(out("print 1 - 1; print 0 - 0.0;"), vec!["0", "0"]);
    assert_eq!(out("print 3 / 2; print 70000;"), vec!["1.5", "70000"]);
}

#[test]
fn large_and_small_numbers_print_positionally() {
    assert_eq!(out("print 100000000000000000000;"), vec!["100000000000000000000"]);
    assert_eq!(out("print 0.00001;"), vec!["0.00001"]);
    assert_eq!(out("print -0.00001;"), vec!["-0.00001"]);
    assert_eq!(out("print 123000000000000000000000;"), vec!["123000000000000000000000"]);
    assert_eq!(out("print 0.000015;"), vec!["0.000015"]);
}

#[test]
fn negative_zero_prints_signed() {
    assert_eq!(out("print -0.0;"), vec!["-0"]);
}

#[test]
fn division_by_zero_is_infinite() {
    assert_eq!(out("print 1 / 0;"), vec!["inf"]);
    assert_eq!(out("print -1 / 0;"), vec!["-inf"]);
}

#[test]
fn comparisons_and_equality() {
    assert_eq!(
        out("print 1 < 2; print 2 <= 2; print 3 > 4; print 4 >= 4;"),
        vec!["true", "true", "false", "true"]
    );
    assert_eq!(
        out("print 1 == 1; print 1 == 2; print \"a\" == \"a\"; print 1 == \"1\"; print nil == nil;"),
        vec!["true", "false", "true", "false", "true"]
    );
    assert_eq!(out("print 1 != 2;"), vec!["true"]);
}

#[test]
fn unary_negation() {
    assert_eq!(out("print -3; print --3; print -(1 + 2);"), vec!["-3", "3", "-3"]);
}

#[test]
fn truthiness_in_conditions() {
    assert_eq!(out("if (0) print \"zero\"; if (\"\") print \"empty\";"), vec!["zero", "empty"]);
    assert_eq!(out("if (nil) print \"a\"; else print \"b\";"), vec!["b"]);
}

#[test]
fn undefined_variable_read() {
    let (m, l) = runtime_error("print missing;");
    assert_eq!(m, "Undefined variable 'missing'.");
    assert_eq!(l, 1);
}

#[test]
fn undefined_variable_assignment() {
    let (m, _) = runtime_error("missing = 1;");
    assert_eq!(m, "Undefined variable 'missing'.");
}

#[test]
fn call_of_non_callable() {
    let (m, _) = runtime_error("var x = 3; x();");
    assert_eq!(m, "Can only call functions and classes.");
}

#[test]
fn operand_type_errors() {
    assert_eq!(runtime_error("print 1 - \"a\";").0, "Operands must be numbers.");
    assert_eq!(runtime_error("print true * 2;").0, "Operands must be numbers.");
    assert_eq!(runtime_error("print 1 < \"a\";").0, "Operands must be numbers.");
    assert_eq!(runtime_error("print -\"a\";").0, "Operand must be a number.");
}

#[test]
fn runtime_error_carries_line() {
    let (_, l) = runtime_error("print 1;\nprint 2;\nprint \"a\" + 1;");
    assert_eq!(l, 3);
}

#[test]
fn unterminated_string_is_reported() {
    let m = parse_fault("print \"abc;");
    assert!(m.contains("Unterminated string."), "{}", m);
}

#[test]
fn unexpected_character_is_reported() {
    let m = parse_fault("print @;");
    assert!(m.contains("Unexpected character."), "{}", m);
}

#[test]
fn parse_error_format() {
    assert_eq!(parse_fault("print 1"), "[line 1] Error at end Expect ';' after value.");
    assert_eq!(parse_fault("1 +;"), "[line 1] Error at ';': Expect expression.");
}

#[test]
fn diagnostics_show_the_source_lexeme() {
    assert_eq!(
        parse_fault("var 1.50 = 2;"),
        "[line 1] Error at '1.50': Expect variable name."
    );
    assert_eq!(parse_fault("1 !;"), "[line 1] Error at '!': Expect ';' after expression.");
}

#[test]
fn invalid_assignment_target() {
    let m = parse_fault("1 = 2;");
    assert!(m.contains("Invalid assignment target."), "{}", m);
}

#[test]
fn read_in_own_initializer() {
    let m = parse_fault("{ var a = a; }");
    assert_eq!(m, "Can't read variable in its own initializer.");
}

#[test]
fn several_errors_keep_last_and_set_earlier_aside() {
    let r = run("print 1\nprint 2\nprint 3");
    match r.halt {
        Halt::Faulted(LoxError::Compile(_)) => {}
        other => panic!("expected a compile error, got {:?}", other),
    }
    assert_eq!(r.diagnostics.len(), 1);
}

#[test]
fn exactly_255_arguments_accepted() {
    let mut src = String::from("fun f(");
    for i in 0..255 {
        if i > 0 {
            src.push(',');
        }
        src.push_str(&format!("p{}", i));
    }
    src.push_str("){ return p0; } print f(");
    for i in 0..255 {
        if i > 0 {
            src.push(',');
        }
        src.push_str("7");
    }
    src.push_str(");");
    assert_eq!(out(&src), vec!["7"]);
}

#[test]
fn two_hundred_fifty_six_arguments_rejected() {
    let mut src = String::from("f(");
    for i in 0..256 {
        if i > 0 {
            src.push(',');
        }
        src.push_str("1");
    }
    src.push_str(");");
    let m = parse_fault(&src);
    assert!(m.contains("Can't have more than 255 arguments."), "{}", m);
}

#[test]
fn empty_source_runs_clean() {
    assert_eq!(out(""), Vec::<String>::new());
    assert_eq!(out("// just a comment"), Vec::<String>::new());
}

#[test]
fn comments_and_whitespace_are_skipped() {
    assert_eq!(out("print 1; // trailing\n// full line\nprint 2;"), vec!["1", "2"]);
}

#[test]
fn strings_may_span_lines() {
    assert_eq!(out("print \"a\nb\";"), vec!["a\nb"]);
    // The error after the string carries the line the string ended on.
    let (_, l) = runtime_error("var s = \"a\nb\";\ns();");
    assert_eq!(l, 3);
}

#[test]
fn function_values_display() {
    assert_eq!(out("fun greet(){} print greet;"), vec!["<fn greet>"]);
    assert_eq!(out("print clock;"), vec!["<native fn>"]);
}

#[test]
fn clock_returns_a_number() {
    // Its value depends on the wall clock; adding zero must keep it a number.
    assert_eq!(out("var t = clock(); print t == t and t >= 0;"), vec!["true"]);
}

#[test]
fn top_level_return_ends_the_run() {
    // The return signal is intercepted at the outer boundary: it never
    // escapes to the host, and the statements after it do not run.
    let r = run("print \"before\"; return 5; print \"after\";");
    match r.halt {
        Halt::Done => {}
        other => panic!("expected a clean run, got {:?}", other),
    }
    assert_eq!(r.output, vec!["before"]);
}

#[test]
fn callee_checked_before_arguments() {
    // A call of a non-callable fails before any argument is evaluated:
    // the argument's print never runs.
    let r = run("fun side() { print \"side\"; } var x = 3; x(side());");
    match r.halt {
        Halt::Faulted(LoxError::Runtime(m, _)) => {
            assert_eq!(m, "Can only call functions and classes.")
        }
        other => panic!("expected a runtime error, got {:?}", other),
    }
    assert!(r.output.is_empty());
}

#[test]
fn out_of_fuel_is_reported() {
    let r = interpret("while (true) {}", 2_000);
    match r.halt {
        Halt::OutOfFuel => {}
        other => panic!("expected the step budget to run out, got {:?}", other),
    }
}

#[test]
fn output_before_a_runtime_error_is_kept() {
    let r = run("print \"first\"; print 1 + nil;");
    assert_eq!(r.output, vec!["first"]);
    match r.halt {
        Halt::Faulted(LoxError::Runtime(_, _)) => {}
        other => panic!("expected a runtime error, got {:?}", other),
    }
}

#[test]
fn resolver_pins_binding_at_capture() {
    // The resolved read keeps seeing the binding visible at declaration,
    // even when an inner declaration later shadows the name.
    assert_eq!(
        out(
            "var a = \"global\"; { fun show() { print a; } show(); var a = \"block\"; show(); }"
        ),
        vec!["global", "global"]
    );
}

#[test]
fn functions_recurse_by_name() {
    assert_eq!(
        out("fun count(n) { if (n > 0) { count(n - 1); } print n; } count(2);"),
        vec!["0", "1", "2"]
    );
}

#[test]
fn assignment_produces_the_value() {
    assert_eq!(out("var a = 1; var b = 2; a = b = 9; print a; print b;"), vec!["9", "9"]);
}

#[test]
fn grouping_overrides_precedence() {
    assert_eq!(out("print (1 + 2) * 3;"), vec!["9"]);
}

#[test]
fn tokens_carry_ending_lines() {
    let toks = rlox::scanner::tokenize("var a\n= 1;\nprint a;");
    let lines: Vec<u64> = toks.iter().map(|t| t.line).collect();
    // var a | = 1 ; | print a ; eof
    assert_eq!(lines, vec![1, 1, 2, 2, 2, 3, 3, 3, 3]);
}

#[test]
fn parse_returns_statements_and_no_errors_on_clean_source() {
    let (stmts, errors, overflowed) = rlox::parse("print 1; var x = 2;", FUEL);
    assert_eq!(stmts.len(), 2);
    assert!(errors.is_empty());
    assert!(!overflowed);
}

#[test]
fn printer_parenthesized_forms() {
    let (stmts, errors, _) = rlox::parse("1 + 2 * 3; -x; a = 1; 1 or 2; (5); \"s\";", FUEL);
    assert!(errors.is_empty());
    let p = rlox::printer::AstPrinter;
    let printed: Vec<String> = stmts
        .iter()
        .map(|s| match s {
            rlox::ast::Stmt::Expr(e) => p.print(e),
            _ => panic!("expected expression statements"),
        })
        .collect();
    assert_eq!(
        printed,
        vec!["(1 + (2 * 3))", "(-x)", "(a = 1)", "(1 or 2)", "5", "\"s\""]
    );
}

#[test]
fn printer_round_trips() {
    // Printing an expression and parsing the result again gives an
    // expression that evaluates the same.
    let cases = [
        "print 42;",
        "print 2.5;",
        "print true;",
        "print nil;",
        "print 1 + 2 * 3;",
        "print -(1 + 2);",
        "print nil or 2;",
        "print 1 and nil and 3;",
        "print \"hi\" + \" there\";",
        "print 0.1 + 0.2;",
        "print !(1 == 2);",
        "var a = 5; print a = a + 1;",
    ];
    for src in cases {
        let (stmts, errors, _) = rlox::parse(src, FUEL);
        assert!(errors.is_empty(), "{}", src);
        let printed = match stmts.last().unwrap() {
            rlox::ast::Stmt::Print(e) => rlox::printer::AstPrinter.print(e),
            _ => panic!("expected a print statement"),
        };
        let prefix = &src[..src.rfind("print").unwrap()];
        let again = format!("{}print {};", prefix, printed);
        assert_eq!(out(src), out(&again), "{} vs {}", src, again);
    }
}
