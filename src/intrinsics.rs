use vstd::prelude::*;
use crate::expr::{Expr, appended, atoms_of, left_most_of, spine_args};
use crate::lexer::{Token, text_is, text_is_char};

verus! {

/// The names of the unary primitives.
pub open spec fn unary_name(s: Seq<char>) -> bool {
    s == seq!['c', 'a', 'r'] || s == seq!['c', 'd', 'r'] || s == seq!['a', 't', 'o', 'm']
        || s == seq!['n', 'u', 'l', 'l'] || s == seq!['q', 'u', 'o', 't', 'e']
        || s == seq!['e', 'v', 'a', 'l']
}

/// The names of the binary primitives.
pub open spec fn binary_name(s: Seq<char>) -> bool {
    s == seq!['c', 'o', 'n', 's'] || s == seq!['e', 'q'] || s == seq!['a', 'd', 'd']
        || s == seq!['s', 'u', 'b'] || s == seq!['m', 'u', 'l'] || s == seq!['d', 'i', 'v']
        || s == seq!['+'] || s == seq!['-'] || s == seq!['*'] || s == seq!['/']
}

pub open spec fn is_unary_spec(e: Expr) -> bool {
    e is Atom && e->Atom_0 is Symbol && unary_name(e->Atom_0->Symbol_0@)
}

pub open spec fn is_binary_spec(e: Expr) -> bool {
    e is Atom && e->Atom_0 is Symbol && binary_name(e->Atom_0->Symbol_0@)
}

/// The form's leftmost atom is the `cond` or `apply` keyword.
pub open spec fn marked(e: Expr) -> bool {
    left_most_of(e) == Expr::Atom(Token::Cond) || left_most_of(e) == Expr::Atom(Token::Apply)
}

/// Fold `rhs` into `lhs` unless `lhs` is still empty (Nil).
pub fn append(lhs: Expr, rhs: Expr) -> (r: Expr)
    ensures
        r == appended(lhs, rhs),
{
    if let Expr::Atom(Token::Nil) = lhs {
        rhs
    } else {
        Expr::new_composed(lhs, rhs)
    }
}

/// The first atom of a tree.
pub fn left_most(expr: Expr) -> (r: Expr)
    ensures
        r == left_most_of(expr),
    decreases expr,
{
    match expr {
        Expr::Atom(_) => expr,
        Expr::Composed { car, .. } => left_most(*car),
    }
}

/// The atoms of a tree, left to right.
pub fn flatten(expr: Expr) -> (r: Vec<Expr>)
    ensures
        r@ == atoms_of(expr),
    decreases expr,
{
    match expr {
        Expr::Atom(_) => {
            let mut v = Vec::new();
            v.push(expr);
            v
        },
        Expr::Composed { car, cdr } => {
            let mut v = flatten(*car);
            let mut w = flatten(*cdr);
            v.append(&mut w);
            v
        },
    }
}

/// The elements of a `cond` or `apply` form that follow its keyword, in the
/// order in which they were written.
pub fn collect(expr: Expr) -> (r: Vec<Expr>)
    requires
        marked(expr),
    ensures
        r@ == spine_args(expr),
    decreases expr,
{
    match expr {
        Expr::Atom(_) => Vec::new(),
        Expr::Composed { car, cdr } => {
            let mut v = collect(*car);
            v.push(*cdr);
            v
        },
    }
}

/// Whether the value is the symbol of a unary primitive.
pub fn is_unary(expr: &Expr) -> (r: bool)
    ensures
        r == is_unary_spec(*expr),
{
    match expr {
        Expr::Atom(Token::Symbol(s)) => text_is(s, &['c', 'a', 'r']) || text_is(s, &['c', 'd', 'r'])
            || text_is(s, &['a', 't', 'o', 'm']) || text_is(s, &['n', 'u', 'l', 'l'])
            || text_is(s, &['q', 'u', 'o', 't', 'e']) || text_is(s, &['e', 'v', 'a', 'l']),
        _ => false,
    }
}

/// Whether the value is the symbol of a binary primitive.
pub fn is_binary(expr: &Expr) -> (r: bool)
    ensures
        r == is_binary_spec(*expr),
{
    match expr {
        Expr::Atom(Token::Symbol(s)) => {
            let named = text_is(s, &['c', 'o', 'n', 's']) || text_is(s, &['e', 'q'])
                || text_is(s, &['a', 'd', 'd']) || text_is(s, &['s', 'u', 'b'])
                || text_is(s, &['m', 'u', 'l']) || text_is(s, &['d', 'i', 'v']);
            let plus = text_is_char(s, '+');
            let minus = text_is_char(s, '-');
            let star = text_is_char(s, '*');
            let slash = text_is_char(s, '/');
            named || plus || minus || star || slash
        },
        _ => false,
    }
}

} // verus!
