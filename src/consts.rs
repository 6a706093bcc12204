use vstd::prelude::*;
use crate::expr::Expr;
use crate::lexer::Token;

verus! {

/// The `nil` atom.
pub fn nil_atom() -> (r: Expr)
    ensures
        r == Expr::Atom(Token::Nil),
{
    Expr::Atom(Token::Nil)
}

/// The `true` atom.
pub fn true_atom() -> (r: Expr)
    ensures
        r == Expr::Atom(Token::True),
{
    Expr::Atom(Token::True)
}

/// The `false` atom.
pub fn false_atom() -> (r: Expr)
    ensures
        r == Expr::Atom(Token::False),
{
    Expr::Atom(Token::False)
}

/// The `lambda` atom.
pub fn lambda_atom() -> (r: Expr)
    ensures
        r == Expr::Atom(Token::Lambda),
{
    Expr::Atom(Token::Lambda)
}

/// The `apply` atom.
pub fn apply_atom() -> (r: Expr)
    ensures
        r == Expr::Atom(Token::Apply),
{
    Expr::Atom(Token::Apply)
}

/// The `define` atom.
pub fn define_atom() -> (r: Expr)
    ensures
        r == Expr::Atom(Token::Define),
{
    Expr::Atom(Token::Define)
}

/// The `cond` atom.
pub fn cond_atom() -> (r: Expr)
    ensures
        r == Expr::Atom(Token::Cond),
{
    Expr::Atom(Token::Cond)
}

/// True or False, as an atom.
pub open spec fn truth(b: bool) -> Expr {
    if b {
        Expr::Atom(Token::True)
    } else {
        Expr::Atom(Token::False)
    }
}

} // verus!
