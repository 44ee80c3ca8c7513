use riddle_rush::accounting::{setter_cut, submitter_share, winners};
use riddle_rush::expression::strip_whitespace_chars;
use riddle_rush::{commit, parse_expression, verify_commit, Expr, ExpressionError, RiddleRushError};

fn hex(bytes: &[u8]) -> String {
    bytes.iter().map(|b| format!("{:02x}", b)).collect()
}

fn number(e: &Expr) -> String {
    match e {
        Expr::Number(d) => d.iter().collect(),
        _ => panic!("not a number"),
    }
}

#[test]
fn commitment_is_sha3_256_of_answer_then_nonce() {
    assert_eq!(hex(&commit("", "")), "a7ffc6f8bf1ed76651c14756a061d662f580ff4de43b49fa82d80a4b80f8434a");
    assert_eq!(hex(&commit("a", "bc")), "3a985da74fe225b2045c172d6bd390bd855f086e3e9d525b46bfe24511431532");
    assert_eq!(commit("7", "na"), commit("7n", "a"));
    assert_ne!(commit("7", "na"), commit("7", "nb"));
}

#[test]
fn commit_then_verify() {
    for (answer, nonce) in [("7", "na"), ("", ""), ("wrong", "nb"), ("é", "ü")] {
        assert!(verify_commit(answer, nonce, &commit(answer, nonce)));
    }
    assert!(!verify_commit("wrong", "na", &commit("7", "na")));
}

#[test]
fn precedence_and_left_associativity() {
    match parse_expression("1+2*3").unwrap() {
        Expr::Add(a, b) => {
            assert_eq!(number(&a), "1");
            match *b {
                Expr::Mul(x, y) => {
                    assert_eq!(number(&x), "2");
                    assert_eq!(number(&y), "3");
                }
                _ => panic!("expected a product"),
            }
        }
        _ => panic!("expected a sum"),
    }
    match parse_expression("8 - 2 - 1").unwrap() {
        Expr::Sub(a, c) => {
            assert_eq!(number(&c), "1");
            match *a {
                Expr::Sub(x, y) => {
                    assert_eq!(number(&x), "8");
                    assert_eq!(number(&y), "2");
                }
                _ => panic!("expected a difference"),
            }
        }
        _ => panic!("expected a difference"),
    }
    match parse_expression("(1.5)/.5").unwrap() {
        Expr::Div(a, b) => {
            assert_eq!(number(&a), "1.5");
            assert_eq!(number(&b), ".5");
        }
        _ => panic!("expected a quotient"),
    }
}

#[test]
fn expression_errors() {
    assert_eq!(parse_expression("1+*2").err(), Some(ExpressionError::InvalidCharacter('*')));
    assert_eq!(parse_expression("").err(), Some(ExpressionError::UnexpectedEnd));
    assert_eq!(parse_expression("1+").err(), Some(ExpressionError::UnexpectedEnd));
    assert_eq!(parse_expression("(1+2").err(), Some(ExpressionError::UnexpectedEnd));
    assert_eq!(parse_expression("1+2)").err(), Some(ExpressionError::InvalidCharacter(')')));
    assert_eq!(parse_expression("1..2").err(), Some(ExpressionError::InvalidNumber));
    assert_eq!(parse_expression(".").err(), Some(ExpressionError::InvalidNumber));
    assert_eq!(parse_expression("2x").err(), Some(ExpressionError::InvalidCharacter('x')));
    assert!(parse_expression("1.").is_ok());
    assert!(parse_expression(" ( 1 +\t2 ) *\n3 ").is_ok());
    assert!(parse_expression("1\u{a0}+\u{3000}2").is_ok());
}

#[test]
fn whitespace_is_stripped() {
    let s: String = strip_whitespace_chars(" a\tb\u{2003}c\n").iter().collect();
    assert_eq!(s, "abc");
}

#[test]
fn fund_formulas() {
    assert_eq!(setter_cut(3000), 300);
    assert_eq!(setter_cut(21), 2);
    assert_eq!(setter_cut(9), 0);
    assert_eq!(setter_cut(u64::MAX), u64::MAX / 10);
    assert_eq!(winners(3000, 1000, 1), Some(1));
    assert_eq!(winners(3000, 1000, 0), Some(2));
    assert_eq!(winners(1000, 1000, 0), None);
    assert_eq!(submitter_share(3000, 1000, 1), Some(2700));
    assert_eq!(submitter_share(3000, 1000, 0), Some(1350));
    assert_eq!(submitter_share(1000, 1000, 0), None);
}

#[test]
fn error_messages() {
    assert_eq!(RiddleRushError::InvalidExpression.message(), "Invalid mathematical expression.");
    assert_eq!(RiddleRushError::ZeroCorrectSubmissions.message(), "No correct submissions.");
}
