use lisp::builtins::{atom, car, cdr, cons, eq, null};
use lisp::consts::{false_atom, nil_atom, true_atom};
use lisp::intrinsics::{append, collect, flatten, is_binary, is_unary, left_most};
use lisp::math::{add, div, mul, sub};
use lisp::{Expr, Token};

fn sym(s: &str) -> Expr {
    Expr::new_atom(Token::Symbol(s.to_string()))
}

fn num(n: i32) -> Expr {
    Expr::new_atom(Token::Integer(n))
}

#[test]
fn pair_primitives() {
    let p = cons(sym("a"), sym("b"));
    assert_eq!(car(Expr::new_composed(sym("a"), sym("b"))), sym("a"));
    assert_eq!(cdr(p), sym("b"));
    assert_eq!(car(num(1)), nil_atom());
    assert_eq!(cdr(num(1)), nil_atom());
    assert_eq!(atom(num(1)), true_atom());
    assert_eq!(null(nil_atom()), true_atom());
    assert_eq!(null(false_atom()), false_atom());
    assert_eq!(eq(num(3), num(3)), true_atom());
    assert_eq!(eq(num(3), num(4)), false_atom());
}

#[test]
fn arithmetic_primitives() {
    assert_eq!(add(num(2), num(3)), num(5));
    assert_eq!(sub(num(2), num(3)), num(-1));
    assert_eq!(mul(num(-4), num(3)), num(-12));
    assert_eq!(div(num(-9), num(4)), num(-2));
    assert_eq!(add(sym("a"), num(3)), nil_atom());
}

#[test]
fn tree_helpers() {
    let t = Expr::new_composed(Expr::new_composed(sym("a"), sym("b")), sym("c"));
    assert_eq!(left_most(Expr::new_composed(Expr::new_composed(sym("a"), sym("b")), sym("c"))), sym("a"));
    assert_eq!(flatten(t), vec![sym("a"), sym("b"), sym("c")]);
    assert_eq!(append(nil_atom(), sym("a")), sym("a"));
    assert_eq!(append(sym("a"), sym("b")), Expr::new_composed(sym("a"), sym("b")));
    let form = Expr::new_composed(
        Expr::new_composed(Expr::new_atom(Token::Apply), sym("f")),
        num(1),
    );
    assert_eq!(collect(form), vec![sym("f"), num(1)]);
    assert!(is_unary(&sym("quote")));
    assert!(!is_unary(&sym("cons")));
    assert!(is_binary(&sym("+")));
    assert!(!is_binary(&num(1)));
}
