use lisp::{Lexer, Token};
use std::collections::VecDeque;

#[test]
fn tokenize_test() {
    assert_eq!(
        Lexer::tokenize("(define sqr (* x x))").unwrap(),
        vec![
            Token::LParen,
            Token::Define,
            Token::Symbol("sqr".into()),
            Token::LParen,
            Token::Symbol("*".into()),
            Token::Symbol("x".into()),
            Token::Symbol("x".into()),
            Token::RParen,
            Token::RParen,
        ]
        .into_iter()
        .collect::<VecDeque<Token>>(),
    );
}

#[test]
fn tokenize_folds_case_and_reads_integers() {
    assert_eq!(
        Lexer::tokenize("(ADD -5 +7 99999999999 Nil LAMBDA Apply COND T F)").unwrap(),
        vec![
            Token::LParen,
            Token::Symbol("add".into()),
            Token::Integer(-5),
            Token::Integer(7),
            Token::Symbol("99999999999".into()),
            Token::Nil,
            Token::Lambda,
            Token::Apply,
            Token::Cond,
            Token::True,
            Token::False,
            Token::RParen,
        ]
        .into_iter()
        .collect::<VecDeque<Token>>(),
    );
}

#[test]
fn tokenize_splits_on_any_white_space() {
    assert_eq!(
        Lexer::tokenize("a\tb\nc\u{3000}d(e)g").unwrap(),
        vec![
            Token::Symbol("a".into()),
            Token::Symbol("b".into()),
            Token::Symbol("c".into()),
            Token::Symbol("d".into()),
            Token::LParen,
            Token::Symbol("e".into()),
            Token::RParen,
            Token::Symbol("g".into()),
        ]
        .into_iter()
        .collect::<VecDeque<Token>>(),
    );
    assert_eq!(Lexer::tokenize("   ").unwrap(), VecDeque::new());
    assert_eq!(
        Lexer::tokenize("- +").unwrap(),
        vec![Token::Symbol("-".into()), Token::Symbol("+".into())]
            .into_iter()
            .collect::<VecDeque<Token>>(),
    );
}
