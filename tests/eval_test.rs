use lisp::consts::{false_atom, nil_atom, true_atom};
use lisp::{Env, Evaluator, Expr, LispError, Token};

fn sym(s: &str) -> Expr {
    Expr::new_atom(Token::Symbol(s.to_string()))
}

fn num(n: i32) -> Expr {
    Expr::new_atom(Token::Integer(n))
}

#[test]
fn arithmatic_test1() {
    let mut env = Env::new();
    assert_eq!(
        Evaluator::eval("(add 1 (sub 2 (mul 3 4)))", &mut env).unwrap(),
        Expr::new_atom(Token::Integer(-9))
    );
}

#[test]
fn arthmatic_test2() {
    let mut env = Env::new();
    assert_eq!(Evaluator::eval("(eq 1 (+ -2 3))", &mut env).unwrap(), true_atom());
}

#[test]
fn cond_test() {
    let mut env = Env::new();
    assert_eq!(
        Evaluator::eval("(cond ((eq 3 (+ 1 2)) t) (f f))", &mut env).unwrap(),
        true_atom()
    );
    assert_eq!(
        Evaluator::eval("(cond ((eq 4 (+ 1 2)) t) (t f))", &mut env).unwrap(),
        false_atom()
    );
}

#[test]
fn function_test() {
    let mut env = Env::new();
    assert_eq!(
        Evaluator::eval(
            "(cons (define ZERO (lambda (x) (cond ((eq x 0) t) (t f)))) (apply ZERO 0))",
            &mut env
        )
        .unwrap(),
        Expr::new_composed(nil_atom(), true_atom())
    );
    assert_eq!(
        Evaluator::eval(
            "(cons (define ZERO (lambda (x) (cond ((eq x 0) t) (t f)))) (apply ZERO 1))",
            &mut env
        )
        .unwrap(),
        Expr::new_composed(nil_atom(), false_atom())
    );
}

#[test]
fn rec_test() {
    let mut env = Env::new();
    assert_eq!(
        Evaluator::eval(
            "(cons (define SUM (lambda (x) (cond ((eq x 0) 0) (t (+ x (apply SUM (- x 1))))))) (apply SUM 23))",
            &mut env
        )
        .unwrap(),
        Expr::new_composed(nil_atom(), Expr::Atom(Token::Integer(276)))
    );
}

#[test]
fn define_then_apply_in_separate_forms() {
    let mut env = Env::new();
    assert_eq!(
        Evaluator::eval("(define ZERO (lambda (x) (cond ((eq x 0) t) (t f))))", &mut env).unwrap(),
        nil_atom()
    );
    assert_eq!(Evaluator::eval("(apply ZERO 0)", &mut env).unwrap(), true_atom());
    assert_eq!(Evaluator::eval("(apply zero 1)", &mut env).unwrap(), false_atom());
}

#[test]
fn quote_returns_operand_unevaluated() {
    let mut env = Env::new();
    let expected = Expr::new_composed(
        Expr::new_composed(sym("add"), num(1)),
        Expr::new_composed(Expr::new_composed(sym("mul"), num(2)), num(3)),
    );
    assert_eq!(Evaluator::eval("(quote (add 1 (mul 2 3)))", &mut env).unwrap(), expected);
    assert_eq!(Evaluator::eval("(quote (undefined x))", &mut env).unwrap(),
        Expr::new_composed(sym("undefined"), sym("x")));
}

#[test]
fn eval_of_quote_equals_evaluation() {
    let mut env = Env::new();
    let direct = Evaluator::eval("(add 1 (mul 2 3))", &mut env).unwrap();
    let quoted = Evaluator::eval("(eval (quote (add 1 (mul 2 3))))", &mut env).unwrap();
    assert_eq!(direct, num(7));
    assert_eq!(quoted, direct);
}

#[test]
fn cond_never_evaluates_later_tests() {
    let mut env = Env::new();
    assert_eq!(Evaluator::eval("(cond (t 1) ((car missing) 2))", &mut env).unwrap(), num(1));
    assert_eq!(
        Evaluator::eval("(cond (f 1) ((car missing) 2))", &mut env),
        Err(LispError::UndefinedSymbol)
    );
    assert_eq!(Evaluator::eval("(cond (f 1) (f 2))", &mut env).unwrap(), nil_atom());
}

#[test]
fn define_stores_the_tree_unevaluated() {
    let mut env = Env::new();
    Evaluator::eval("(define X (+ 1 2))", &mut env).unwrap();
    assert_eq!(
        Evaluator::eval("(cons X 0)", &mut env).unwrap(),
        Expr::new_composed(Expr::new_composed(Expr::new_composed(sym("+"), num(1)), num(2)), num(0))
    );
    assert_eq!(Evaluator::eval("(eval X)", &mut env).unwrap(), num(3));
}

#[test]
fn unary_primitives() {
    let mut env = Env::new();
    assert_eq!(Evaluator::eval("(car (quote (a b)))", &mut env).unwrap(), sym("a"));
    assert_eq!(Evaluator::eval("(cdr (quote (a b)))", &mut env).unwrap(), sym("b"));
    assert_eq!(Evaluator::eval("(car 5)", &mut env).unwrap(), nil_atom());
    assert_eq!(Evaluator::eval("(atom 5)", &mut env).unwrap(), true_atom());
    assert_eq!(Evaluator::eval("(atom (quote (a b)))", &mut env).unwrap(), false_atom());
    assert_eq!(Evaluator::eval("(null nil)", &mut env).unwrap(), true_atom());
    assert_eq!(Evaluator::eval("(null 0)", &mut env).unwrap(), false_atom());
}

#[test]
fn eq_on_pairs_is_false() {
    let mut env = Env::new();
    assert_eq!(Evaluator::eval("(eq (quote (a b)) (quote (a b)))", &mut env).unwrap(), false_atom());
    assert_eq!(Evaluator::eval("(eq (quote a) (quote A))", &mut env).unwrap(), true_atom());
}

#[test]
fn division_truncates_toward_zero() {
    let mut env = Env::new();
    assert_eq!(Evaluator::eval("(div -7 2)", &mut env).unwrap(), num(-3));
    assert_eq!(Evaluator::eval("(/ 7 -2)", &mut env).unwrap(), num(-3));
    assert_eq!(Evaluator::eval("(/ -2147483648 1)", &mut env).unwrap(), num(i32::MIN));
}

#[test]
fn unknown_operator_is_inert() {
    let mut env = Env::new();
    assert_eq!(Evaluator::eval("(frobnicate 1 2)", &mut env).unwrap(), nil_atom());
}

#[test]
fn semantic_errors() {
    let mut env = Env::new();
    assert_eq!(Evaluator::eval("(add y 1)", &mut env), Err(LispError::UndefinedSymbol));
    assert_eq!(Evaluator::eval("(apply nothing 1)", &mut env), Err(LispError::NotCallable));
    Evaluator::eval("(define NUM 5)", &mut env).unwrap();
    assert_eq!(Evaluator::eval("(apply NUM 1)", &mut env), Err(LispError::NotCallable));
    Evaluator::eval("(define PAIR (lambda (a b) (cons a b)))", &mut env).unwrap();
    assert_eq!(Evaluator::eval("(apply PAIR 1)", &mut env), Err(LispError::ArityMismatch));
    assert_eq!(
        Evaluator::eval("(apply PAIR 1 2)", &mut env).unwrap(),
        Expr::new_composed(num(1), num(2))
    );
    Evaluator::eval("(define BAD (lambda (1) 2))", &mut env).unwrap();
    assert_eq!(Evaluator::eval("(apply BAD 1)", &mut env), Err(LispError::MalformedForm));
    assert_eq!(Evaluator::eval("(define 1 2)", &mut env), Err(LispError::MalformedForm));
    assert_eq!(Evaluator::eval("(add t 1)", &mut env), Err(LispError::TypeMismatch));
    assert_eq!(Evaluator::eval("(div 1 0)", &mut env), Err(LispError::DivisionByZero));
    assert_eq!(Evaluator::eval("(mul 65536 65536)", &mut env), Err(LispError::Overflow));
    assert_eq!(Evaluator::eval("(div -2147483648 -1)", &mut env), Err(LispError::Overflow));
}

#[test]
fn unbounded_recursion_hits_depth_limit() {
    let mut env = Env::new();
    assert_eq!(
        Evaluator::eval("(cons (define LOOP (lambda (x) (apply LOOP x))) (apply LOOP 1))", &mut env),
        Err(LispError::DepthExceeded)
    );
}

#[test]
fn reading_errors() {
    let mut env = Env::new();
    assert_eq!(Evaluator::eval("a b", &mut env), Err(LispError::ExpectedOpenParen));
    assert_eq!(Evaluator::eval("", &mut env), Err(LispError::ExpectedOpenParen));
    assert_eq!(Evaluator::eval("(add 1 (sub 2 3)", &mut env), Err(LispError::UnexpectedEnd));
}
