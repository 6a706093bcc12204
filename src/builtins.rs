use vstd::prelude::*;
use crate::consts::{false_atom, nil_atom, true_atom, truth};
use crate::expr::{Expr, car_of, cdr_of, pair};
use crate::lexer::{Token, same_token};

verus! {

/// Whether two values are atoms holding the same lexeme; pairs are never equal.
pub open spec fn eq_of(lhs: Expr, rhs: Expr) -> bool {
    lhs is Atom && rhs is Atom && same_token(lhs->Atom_0, rhs->Atom_0)
}

pub fn cons(lhs: Expr, rhs: Expr) -> (r: Expr)
    ensures
        r == pair(lhs, rhs),
{
    Expr::new_composed(lhs, rhs)
}

pub fn eq(lhs: Expr, rhs: Expr) -> (r: Expr)
    ensures
        r == truth(eq_of(lhs, rhs)),
{
    match (&lhs, &rhs) {
        (Expr::Atom(a), Expr::Atom(b)) => if a.same(b) {
            true_atom()
        } else {
            false_atom()
        },
        _ => false_atom(),
    }
}

pub fn car(expr: Expr) -> (r: Expr)
    ensures
        r == car_of(expr),
{
    match expr {
        Expr::Composed { car, .. } => *car,
        _ => nil_atom(),
    }
}

pub fn cdr(expr: Expr) -> (r: Expr)
    ensures
        r == cdr_of(expr),
{
    match expr {
        Expr::Composed { cdr, .. } => *cdr,
        _ => nil_atom(),
    }
}

pub fn atom(expr: Expr) -> (r: Expr)
    ensures
        r == truth(expr is Atom),
{
    match expr {
        Expr::Atom(_) => true_atom(),
        _ => false_atom(),
    }
}

pub fn null(expr: Expr) -> (r: Expr)
    ensures
        r == truth(expr == Expr::Atom(Token::Nil)),
{
    match expr {
        Expr::Atom(Token::Nil) => true_atom(),
        _ => false_atom(),
    }
}

/// The operand itself: `quote` hands its operand back unevaluated.
pub fn quote(expr: Expr) -> (r: Expr)
    ensures
        r == expr,
{
    expr
}

/// The operand itself: the evaluator has already evaluated it twice.
pub fn eval(expr: Expr) -> (r: Expr)
    ensures
        r == expr,
{
    expr
}

} // verus!
