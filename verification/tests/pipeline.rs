//! End-to-end tests: source text through the scanner, parser and evaluator,
//! checking the printed lines and the error categories.

use rusthon::error::ErrorKind;
use rusthon::interpreter::Interpreter;
use rusthon::lexer::Lexer;
use rusthon::parser::Parser;

const FUEL: u64 = 1_000_000;

fn run_lines(src: &str) -> Vec<String> {
    let lexer = Lexer::new(src);
    let mut parser = Parser::new(lexer).expect("first token should scan");
    let program = parser.parse_program(FUEL).expect("program should parse");
    let mut interp = Interpreter::new();
    interp.run(&program, FUEL).expect("program should run");
    interp.output_lines().clone()
}

fn run_kind(src: &str) -> ErrorKind {
    let lexer = Lexer::new(src);
    let mut parser = match Parser::new(lexer) {
        Ok(p) => p,
        Err(e) => return e.kind,
    };
    let program = match parser.parse_program(FUEL) {
        Ok(p) => p,
        Err(e) => return e.kind,
    };
    let mut interp = Interpreter::new();
    match interp.run(&program, FUEL) {
        Ok(()) => panic!("expected the run to fail"),
        Err(e) => e.kind,
    }
}

#[test]
fn simple_arith_and_while_does_not_panic() {
    let src = r#"
            var x: int = 0
            var sum: int = 0

            while (x < 5) {
                sum = sum + x
                x = x + 1
            }

            print("sum =", sum)
        "#;

    run_lines(src);
}

#[test]
fn functions_branching_and_foreach_does_not_panic() {
    let src = r#"
            func sum_list(xs: list) {
                var acc: int = 0
                for v in xs {
                    acc = acc + v
                }
                print("sum_list =", acc)
            }

            func classify_and_print(n: int) {
                if (n < 0) {
                    print("neg")
                } elif (n == 0) {
                    print("zero")
                } else {
                    print("pos")
                }
            }

            func main() {
                var xs: list = [1, 2, 3, 4]
                sum_list(xs)

                classify_and_print(1)
                classify_and_print(0)
                classify_and_print(1)

                print("for i in 5")
                for i in 5 {
                    print(i)
                }
            }

            main()
        "#;

    run_lines(src);
}

#[test]
fn precedence_evaluates_one_plus_two_times_three_to_seven() {
    assert_eq!(run_lines("print(1 + 2 * 3)"), vec!["7".to_string()]);
    assert_eq!(
        run_lines("print(1 + 2 * 3)"),
        run_lines("print(1 + (2 * 3))")
    );
    // The other association would print 9.
    assert_eq!(run_lines("print((1 + 2) * 3)"), vec!["9".to_string()]);
}

#[test]
fn reassigning_a_different_runtime_tag_does_not_abort() {
    // Only a declaration checks its type; a later assignment never does.
    let lines = run_lines("var x: int = 5\nx = \"a\"\nprint(x)");
    assert_eq!(lines, vec!["a".to_string()]);
}

#[test]
fn foreach_over_int_prints_each_value_on_its_own_line() {
    let lines = run_lines("for i in 3 { print(i) }");
    assert_eq!(
        lines,
        vec!["0".to_string(), "1".to_string(), "2".to_string()]
    );
}

#[test]
fn user_function_add_evaluates_to_five() {
    let src = "func add(a: int, b: int) { return a + b }\nprint(add(2, 3))";
    assert_eq!(run_lines(src), vec!["5".to_string()]);
}

#[test]
fn calling_with_wrong_argument_count_is_fatal() {
    let src = "func add(a: int, b: int) { return a + b }\nprint(add(2))";
    assert_eq!(run_kind(src), ErrorKind::Runtime);
}

#[test]
fn string_comparison_goes_by_length_not_lexicographic() {
    assert_eq!(run_lines("print(\"ab\" < \"abc\")"), vec!["true".to_string()]);
    // Lexicographically 'z' > 'a', but the lengths are equal.
    assert_eq!(run_lines("print(\"z\" < \"a\")"), vec!["false".to_string()]);
    assert_eq!(run_lines("print(\"abc\" > \"ab\")"), vec!["true".to_string()]);
    assert_eq!(run_lines("print(\"ab\" <= \"ab\")"), vec!["true".to_string()]);
}

#[test]
fn range_with_two_arguments_builds_the_half_open_interval() {
    assert_eq!(run_lines("print(range(2, 5))"), vec!["[2, 3, 4]".to_string()]);
}

#[test]
fn range_with_crossed_bounds_is_fatal() {
    assert_eq!(run_kind("print(range(5, 2))"), ErrorKind::Runtime);
}

#[test]
fn range_with_one_argument_starts_at_zero() {
    assert_eq!(run_lines("print(range(3))"), vec!["[0, 1, 2]".to_string()]);
    assert_eq!(run_kind("print(range(0 - 1))"), ErrorKind::Runtime);
}

#[test]
fn division_by_zero_is_a_fatal_runtime_error() {
    assert_eq!(run_kind("print(7 / 0)"), ErrorKind::Runtime);
}

#[test]
fn division_truncates_toward_zero() {
    assert_eq!(run_lines("print(7 / 2)"), vec!["3".to_string()]);
    // Truncation, not flooring: -7 / 2 is -3, where flooring would give -4.
    let lines = run_lines("var a: int = 0 - 7\nprint(a / 2)");
    assert_eq!(lines, vec!["-3".to_string()]);
}

#[test]
fn return_inside_while_ends_loop_and_function_at_once() {
    let src = r#"
            func f() {
                while (true) {
                    return 42
                }
                print("after the loop")
                return 0
            }
            print(f())
        "#;
    // Nothing after the loop runs: only the returned value is printed.
    assert_eq!(run_lines(src), vec!["42".to_string()]);
}

#[test]
fn two_fresh_runs_print_identical_output() {
    let src = r#"
            func fib(n: int) {
                if (n < 2) {
                    return n
                }
                return fib(n - 1) + fib(n - 2)
            }
            print(fib(10))
        "#;
    let first = run_lines(src);
    let second = run_lines(src);
    assert_eq!(first, second);
    assert_eq!(first, vec!["55".to_string()]);
}

#[test]
fn undefined_variable_read_is_a_name_error() {
    assert_eq!(run_kind("print(y)"), ErrorKind::Name);
}

#[test]
fn assignment_to_undeclared_variable_is_a_name_error() {
    assert_eq!(run_kind("x = 1"), ErrorKind::Name);
}

#[test]
fn unknown_function_is_a_name_error() {
    assert_eq!(run_kind("mystery(1)"), ErrorKind::Name);
}

#[test]
fn declaration_type_mismatch_is_a_type_error() {
    assert_eq!(run_kind("var x: int = \"a\""), ErrorKind::Type);
}

#[test]
fn operator_tag_mismatch_is_a_type_error() {
    assert_eq!(run_kind("print(1 + true)"), ErrorKind::Type);
}

#[test]
fn non_boolean_loop_condition_is_a_type_error() {
    assert_eq!(run_kind("while 1 { print(1) }"), ErrorKind::Type);
}

#[test]
fn non_boolean_branch_condition_is_a_type_error() {
    assert_eq!(run_kind("if 1 { print(1) }"), ErrorKind::Type);
}

#[test]
fn addition_overflow_is_a_fatal_runtime_error() {
    assert_eq!(
        run_kind("print(9223372036854775807 + 1)"),
        ErrorKind::Runtime
    );
}

#[test]
fn unterminated_block_is_a_syntax_error() {
    assert_eq!(run_kind("while (true) { print(1)"), ErrorKind::Syntax);
}

#[test]
fn calling_a_non_name_is_a_syntax_error() {
    assert_eq!(run_kind("print((1 + 2)(3))"), ErrorKind::Syntax);
}

#[test]
fn illegal_character_is_a_lexical_error() {
    assert_eq!(run_kind("print(1 ? 2)"), ErrorKind::Lexical);
}

#[test]
fn bang_without_equals_is_a_lexical_error() {
    assert_eq!(run_kind("print(!true)"), ErrorKind::Lexical);
}

#[test]
fn string_literal_broken_by_newline_is_a_lexical_error() {
    assert_eq!(run_kind("print(\"ab\ncd\")"), ErrorKind::Lexical);
}

#[test]
fn oversized_integer_literal_is_a_lexical_error() {
    assert_eq!(run_kind("print(99999999999999999999)"), ErrorKind::Lexical);
}

#[test]
fn block_scope_ends_at_the_closing_brace() {
    assert_eq!(
        run_kind("if (true) { var x: int = 1 }\nprint(x)"),
        ErrorKind::Name
    );
}

#[test]
fn assignment_reaches_outer_scopes() {
    let src = r#"
            var x: int = 1
            if (true) {
                x = 2
            }
            print(x)
        "#;
    assert_eq!(run_lines(src), vec!["2".to_string()]);
}

#[test]
fn c_style_for_shares_one_frame_across_iterations() {
    let src = "for (var i: int = 0; i < 3; i = i + 1) { print(i) }";
    assert_eq!(
        run_lines(src),
        vec!["0".to_string(), "1".to_string(), "2".to_string()]
    );
}

#[test]
fn foreach_over_string_yields_single_character_strings() {
    let lines = run_lines("for c in \"hey\" { print(c) }");
    assert_eq!(
        lines,
        vec!["h".to_string(), "e".to_string(), "y".to_string()]
    );
}

#[test]
fn foreach_over_list_yields_its_elements() {
    let lines = run_lines("for v in [10, 20] { print(v) }");
    assert_eq!(lines, vec!["10".to_string(), "20".to_string()]);
}

#[test]
fn foreach_over_negative_int_is_fatal() {
    assert_eq!(run_kind("for i in 0 - 1 { print(i) }"), ErrorKind::Runtime);
}

#[test]
fn foreach_over_bool_is_fatal() {
    assert_eq!(run_kind("for i in true { print(i) }"), ErrorKind::Runtime);
}

#[test]
fn elif_chain_takes_the_first_true_arm() {
    let src = r#"
            func classify(n: int) {
                if (n < 0) {
                    print("neg")
                } elif (n == 0) {
                    print("zero")
                } else {
                    print("pos")
                }
            }
            classify(0 - 5)
            classify(0)
            classify(5)
        "#;
    assert_eq!(
        run_lines(src),
        vec!["neg".to_string(), "zero".to_string(), "pos".to_string()]
    );
}

#[test]
fn later_function_definition_shadows_an_earlier_one() {
    let src = r#"
            func f() { return 1 }
            func f() { return 2 }
            print(f())
        "#;
    assert_eq!(run_lines(src), vec!["2".to_string()]);
}

#[test]
fn top_level_return_is_discarded_and_the_run_continues() {
    let lines = run_lines("print(1)\nreturn 99\nprint(2)");
    assert_eq!(lines, vec!["1".to_string(), "2".to_string()]);
}

#[test]
fn string_concatenation_with_plus() {
    assert_eq!(run_lines("print(\"ab\" + \"cd\")"), vec!["abcd".to_string()]);
}

#[test]
fn print_joins_arguments_with_single_spaces() {
    let lines = run_lines("print(1, \"a\", true, [1, \"x\"])");
    assert_eq!(lines, vec!["1 a true [1, \"x\"]".to_string()]);
}

#[test]
fn a_function_without_a_return_yields_the_empty_value() {
    let src = "func noop() { print(\"ran\") }\nprint(noop())";
    assert_eq!(run_lines(src), vec!["ran".to_string(), "()".to_string()]);
}

#[test]
fn lines_printed_before_a_failure_are_kept() {
    let lexer = Lexer::new("print(1)\nprint(2)\nprint(missing)");
    let mut parser = Parser::new(lexer).unwrap();
    let program = parser.parse_program(FUEL).unwrap();
    let mut interp = Interpreter::new();
    let err = interp.run(&program, FUEL).unwrap_err();
    assert_eq!(err.kind, ErrorKind::Name);
    // The fail-fast abort still leaves everything printed up to the error.
    assert_eq!(
        interp.output_lines().clone(),
        vec!["1".to_string(), "2".to_string()]
    );
}

#[test]
fn diagnostics_name_the_offending_subject() {
    let lexer = Lexer::new("print(missing_name)");
    let mut parser = Parser::new(lexer).unwrap();
    let program = parser.parse_program(FUEL).unwrap();
    let mut interp = Interpreter::new();
    let err = interp.run(&program, FUEL).unwrap_err();
    assert!(err.msg.contains("missing_name"));

    let lexer2 = Lexer::new("var x int = 1");
    let mut parser2 = Parser::new(lexer2).unwrap();
    let err2 = parser2.parse_program(FUEL).unwrap_err();
    assert_eq!(err2.kind, ErrorKind::Syntax);
    assert!(err2.msg.contains("identifier 'int'"));

    let lexer3 = Lexer::new("func add(a: int, b: int) { return a + b }\nadd(2)");
    let mut parser3 = Parser::new(lexer3).unwrap();
    let program3 = parser3.parse_program(FUEL).unwrap();
    let mut interp3 = Interpreter::new();
    let err3 = interp3.run(&program3, FUEL).unwrap_err();
    assert_eq!(err3.kind, ErrorKind::Runtime);
    assert!(err3.msg.contains("'add'"));
    assert!(err3.msg.contains("expected 2 arguments, got 1"));
}
