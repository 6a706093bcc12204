use lisp::consts::nil_atom;
use lisp::{Env, Expr, LispError, Parser, Token};

fn sym(s: &str) -> Expr {
    Expr::new_atom(Token::Symbol(s.to_string()))
}

#[test]
fn parse_folds_left_for_zero_to_three_atoms() {
    assert_eq!(Parser::parse("()").unwrap(), nil_atom());
    assert_eq!(Parser::parse("(a)").unwrap(), sym("a"));
    assert_eq!(Parser::parse("(a b)").unwrap(), Expr::new_composed(sym("a"), sym("b")));
    assert_eq!(
        Parser::parse("(a b c)").unwrap(),
        Expr::new_composed(Expr::new_composed(sym("a"), sym("b")), sym("c"))
    );
}

#[test]
fn parse_nested_forms() {
    assert_eq!(
        Parser::parse("(a (b c) d)").unwrap(),
        Expr::new_composed(
            Expr::new_composed(sym("a"), Expr::new_composed(sym("b"), sym("c"))),
            sym("d")
        )
    );
    assert_eq!(Parser::parse("(nil a)").unwrap(), sym("a"));
    assert_eq!(Parser::parse("(a) trailing").unwrap(), sym("a"));
}

#[test]
fn parse_errors() {
    assert_eq!(Parser::parse("a"), Err(LispError::ExpectedOpenParen));
    assert_eq!(Parser::parse(")"), Err(LispError::ExpectedOpenParen));
    assert_eq!(Parser::parse("(a (b)"), Err(LispError::UnexpectedEnd));
}

#[test]
fn env_set_get_extend_update() {
    let mut env = Env::new();
    let x = "x".to_string();
    assert_eq!(env.get(&x), None);
    env.set(x.clone(), sym("one"));
    env.set(x.clone(), sym("two"));
    assert_eq!(env.get(&x), Some(sym("two")));
    let mut child = Env::extend(env);
    assert_eq!(child.get(&x), Some(sym("two")));
    child.set(x.clone(), sym("three"));
    assert_eq!(child.get(&x), Some(sym("three")));
    child.pop_frame();
    assert_eq!(child.get(&x), Some(sym("two")));

    let mut other = Env::new();
    other.set("y".to_string(), sym("why"));
    other.set(x.clone(), sym("four"));
    let mut base = Env::new();
    base.set(x.clone(), sym("five"));
    base.set("z".to_string(), sym("zed"));
    base.update(&other);
    assert_eq!(base.get(&x), Some(sym("four")));
    assert_eq!(base.get(&"y".to_string()), Some(sym("why")));
    assert_eq!(base.get(&"z".to_string()), Some(sym("zed")));
}
