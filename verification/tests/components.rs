//! Tests of the stages one at a time: the scanner's token stream, the parse
//! trees the parser builds, and the builtin registry.

use rusthon::ast::{BinOp, Expr};
use rusthon::error::ErrorKind;
use rusthon::interpreter::Interpreter;
use rusthon::lexer::Lexer;
use rusthon::parser::Parser;
use rusthon::token::Token;

const BUDGET: u64 = 1_000_000;

fn lines_of(src: &str) -> Vec<String> {
    let lexer = Lexer::new(src);
    let mut parser = Parser::new(lexer).expect("first token should scan");
    let program = parser.parse_program(BUDGET).expect("program should parse");
    let mut interp = Interpreter::new();
    interp.run(&program, BUDGET).expect("program should run");
    interp.output_lines().clone()
}

fn kind_of(src: &str) -> ErrorKind {
    let lexer = Lexer::new(src);
    let mut parser = match Parser::new(lexer) {
        Ok(p) => p,
        Err(e) => return e.kind,
    };
    let program = match parser.parse_program(BUDGET) {
        Ok(p) => p,
        Err(e) => return e.kind,
    };
    let mut interp = Interpreter::new();
    match interp.run(&program, BUDGET) {
        Ok(()) => panic!("expected the run to fail"),
        Err(e) => e.kind,
    }
}

#[test]
fn scanning_past_the_end_returns_eof_again_and_again() {
    let mut lexer = Lexer::new("x");
    let first = lexer.next_token().unwrap();
    assert!(matches!(first, Token::Ident(_)));
    for _ in 0..3 {
        let t = lexer.next_token().unwrap();
        assert!(matches!(t, Token::EOF));
    }
}

#[test]
fn scanner_splits_two_character_operators() {
    let mut lexer = Lexer::new("== = != <= < >= >");
    let expected = [
        Token::EqEq,
        Token::Eq,
        Token::NotEq,
        Token::LtEq,
        Token::Lt,
        Token::GtEq,
        Token::Gt,
        Token::EOF,
    ];
    for want in expected {
        let got = lexer.next_token().unwrap();
        assert!(got.same_as(&want));
    }
}

#[test]
fn scanner_classifies_keywords_and_identifiers() {
    let mut lexer = Lexer::new("var varx if iffy while in");
    let expected = [
        Token::Kwvar,
        Token::Ident("varx".to_string()),
        Token::KwIf,
        Token::Ident("iffy".to_string()),
        Token::KwWhile,
        Token::KwIn,
    ];
    for want in expected {
        let got = lexer.next_token().unwrap();
        assert!(got.same_as(&want));
    }
}

#[test]
fn scanner_reads_numbers_and_strings() {
    let mut lexer = Lexer::new("123 \"hi there\"");
    assert!(lexer.next_token().unwrap().same_as(&Token::IntLiteral(123)));
    assert!(lexer
        .next_token()
        .unwrap()
        .same_as(&Token::StrLiteral("hi there".to_string())));
}

#[test]
fn parser_builds_a_right_leaning_tree_for_mixed_precedence() {
    let lexer = Lexer::new("1 + 2 * 3");
    let mut parser = Parser::new(lexer).unwrap();
    let expr = parser.parse_expr(BUDGET).unwrap();
    // The tree must be Add(1, Mul(2, 3)): `*` binds tighter than `+`.
    match expr {
        Expr::Binary { left, op: BinOp::Add, right } => {
            assert!(matches!(*left, Expr::Int(1)));
            match *right {
                Expr::Binary { left: l2, op: BinOp::Mul, right: r2 } => {
                    assert!(matches!(*l2, Expr::Int(2)));
                    assert!(matches!(*r2, Expr::Int(3)));
                },
                other => panic!("expected a multiplication on the right, got {:?}", other),
            }
        },
        other => panic!("expected an addition at the top, got {:?}", other),
    }
}

#[test]
fn parser_keeps_same_level_operators_left_associative() {
    let lexer = Lexer::new("1 - 2 + 3");
    let mut parser = Parser::new(lexer).unwrap();
    let expr = parser.parse_expr(BUDGET).unwrap();
    // The tree must be Add(Sub(1, 2), 3).
    match expr {
        Expr::Binary { left, op: BinOp::Add, right } => {
            assert!(matches!(*right, Expr::Int(3)));
            assert!(matches!(
                *left,
                Expr::Binary { op: BinOp::Sub, .. }
            ));
        },
        other => panic!("expected an addition at the top, got {:?}", other),
    }
}

#[test]
fn len_counts_characters_and_elements() {
    assert_eq!(lines_of("print(len(\"hello\"))"), vec!["5".to_string()]);
    assert_eq!(lines_of("print(len([1, 2, 3]))"), vec!["3".to_string()]);
    assert_eq!(kind_of("print(len(5))"), ErrorKind::Type);
}

#[test]
fn sum_totals_a_list_of_integers() {
    assert_eq!(lines_of("print(sum([1, 2, 3, 4]))"), vec!["10".to_string()]);
    assert_eq!(lines_of("print(sum([]))"), vec!["0".to_string()]);
    assert_eq!(kind_of("print(sum([1, \"a\"]))"), ErrorKind::Type);
}

#[test]
fn push_returns_a_new_list_and_keeps_the_old_one() {
    let src = r#"
            var xs: list = [1, 2]
            var ys: list = push(xs, 3)
            print(xs)
            print(ys)
        "#;
    assert_eq!(
        lines_of(src),
        vec!["[1, 2]".to_string(), "[1, 2, 3]".to_string()]
    );
}

#[test]
fn head_and_tail_split_a_list() {
    assert_eq!(lines_of("print(head([7, 8, 9]))"), vec!["7".to_string()]);
    assert_eq!(lines_of("print(tail([7, 8, 9]))"), vec!["[8, 9]".to_string()]);
    assert_eq!(kind_of("print(head([]))"), ErrorKind::Runtime);
    assert_eq!(kind_of("print(tail([]))"), ErrorKind::Runtime);
}

#[test]
fn str_renders_every_value_shape() {
    assert_eq!(lines_of("print(str(42))"), vec!["42".to_string()]);
    assert_eq!(lines_of("print(str(0 - 42))"), vec!["-42".to_string()]);
    assert_eq!(lines_of("print(str(true))"), vec!["true".to_string()]);
    assert_eq!(lines_of("print(str(\"ok\"))"), vec!["ok".to_string()]);
    assert_eq!(
        lines_of("print(str([1, \"a\", [2]]))"),
        vec!["[1, \"a\", [2]]".to_string()]
    );
}

#[test]
fn int_converts_integers_booleans_and_strings() {
    assert_eq!(lines_of("print(int(7))"), vec!["7".to_string()]);
    assert_eq!(lines_of("print(int(true))"), vec!["1".to_string()]);
    assert_eq!(lines_of("print(int(false))"), vec!["0".to_string()]);
    assert_eq!(lines_of("print(int(\"42\"))"), vec!["42".to_string()]);
    assert_eq!(lines_of("print(int(\"-17\"))"), vec!["-17".to_string()]);
    assert_eq!(lines_of("print(int(\"+5\"))"), vec!["5".to_string()]);
    assert_eq!(kind_of("print(int(\"abc\"))"), ErrorKind::Runtime);
    assert_eq!(kind_of("print(int(\"\"))"), ErrorKind::Runtime);
    assert_eq!(kind_of("print(int([1]))"), ErrorKind::Type);
}

#[test]
fn int_parses_the_64_bit_extremes() {
    assert_eq!(
        lines_of("print(int(\"9223372036854775807\"))"),
        vec!["9223372036854775807".to_string()]
    );
    assert_eq!(
        lines_of("print(int(\"-9223372036854775808\"))"),
        vec!["-9223372036854775808".to_string()]
    );
    assert_eq!(
        kind_of("print(int(\"9223372036854775808\"))"),
        ErrorKind::Runtime
    );
}

#[test]
fn equality_works_per_tag_and_rejects_mixes() {
    assert_eq!(lines_of("print(1 == 1, 1 != 2)"), vec!["true true".to_string()]);
    assert_eq!(
        lines_of("print(\"a\" == \"a\", true == false)"),
        vec!["true false".to_string()]
    );
    assert_eq!(kind_of("print(1 == \"1\")"), ErrorKind::Type);
}

#[test]
fn builtins_win_over_user_functions_of_the_same_name() {
    let src = "func len(x: int) { return 99 }\nprint(len(\"abc\"))";
    assert_eq!(lines_of(src), vec!["3".to_string()]);
}

#[test]
fn an_exhausted_step_budget_is_reported_as_a_resource_error() {
    let lexer = Lexer::new("while (true) { }");
    let mut parser = Parser::new(lexer).unwrap();
    let program = parser.parse_program(BUDGET).unwrap();
    let mut interp = Interpreter::new();
    let err = interp.run(&program, 10_000).unwrap_err();
    assert_eq!(err.kind, ErrorKind::Resource);
}

#[test]
fn an_empty_program_runs_and_prints_nothing() {
    assert_eq!(lines_of(""), Vec::<String>::new());
    assert_eq!(lines_of("\n\n  \n"), Vec::<String>::new());
}

#[test]
fn redeclaring_a_name_in_the_same_scope_overwrites_it() {
    let lines = lines_of("var x: int = 1\nvar x: str = \"a\"\nprint(x)");
    assert_eq!(lines, vec!["a".to_string()]);
}

#[test]
fn print_with_no_arguments_writes_an_empty_line() {
    assert_eq!(lines_of("print()"), vec!["".to_string()]);
}

#[test]
fn inner_scopes_shadow_outer_bindings_until_the_block_ends() {
    let src = r#"
            var x: int = 1
            if (true) {
                var x: int = 2
                print(x)
            }
            print(x)
        "#;
    assert_eq!(lines_of(src), vec!["2".to_string(), "1".to_string()]);
}

#[test]
fn the_word_mut_is_an_ordinary_identifier() {
    let mut lexer = Lexer::new("mut");
    let t = lexer.next_token().unwrap();
    assert!(t.same_as(&Token::Ident("mut".to_string())));
    // It can name a variable like any other identifier.
    assert_eq!(
        lines_of("var mut: int = 3\nprint(mut)"),
        vec!["3".to_string()]
    );
}
