use vstd::prelude::*;
use crate::lexer::Token;

verus! {

/// The one data type for code and data: an atom, or a pair of two trees.
#[derive(Debug, PartialEq, Eq)]
pub enum Expr {
    Atom(Token),
    Composed { car: Box<Expr>, cdr: Box<Expr> },
}

/// The pair of `a` and `b`.
pub open spec fn pair(a: Expr, b: Expr) -> Expr {
    Expr::Composed { car: Box::new(a), cdr: Box::new(b) }
}

/// The first component of a pair; Nil for an atom.
pub open spec fn car_of(e: Expr) -> Expr {
    match e {
        Expr::Composed { car, .. } => *car,
        _ => Expr::Atom(Token::Nil),
    }
}

/// The second component of a pair; Nil for an atom.
pub open spec fn cdr_of(e: Expr) -> Expr {
    match e {
        Expr::Composed { cdr, .. } => *cdr,
        _ => Expr::Atom(Token::Nil),
    }
}

/// The atom reached by descending into first components.
pub open spec fn left_most_of(e: Expr) -> Expr
    decreases e,
{
    match e {
        Expr::Atom(_) => e,
        Expr::Composed { car, .. } => left_most_of(*car),
    }
}

/// The atoms of a tree, left to right.
pub open spec fn atoms_of(e: Expr) -> Seq<Expr>
    decreases e,
{
    match e {
        Expr::Atom(_) => seq![e],
        Expr::Composed { car, cdr } => atoms_of(*car) + atoms_of(*cdr),
    }
}

/// The second components met on the way down the chain of first components,
/// outermost last: the elements that follow the leftmost atom of a form.
pub open spec fn spine_args(e: Expr) -> Seq<Expr>
    decreases e,
{
    match e {
        Expr::Atom(_) => Seq::empty(),
        Expr::Composed { car, cdr } => spine_args(*car).push(*cdr),
    }
}

/// Folding `x` into the tree built so far: a Nil accumulator gives `x` itself.
pub open spec fn appended(acc: Expr, x: Expr) -> Expr {
    if acc == Expr::Atom(Token::Nil) {
        x
    } else {
        pair(acc, x)
    }
}

impl Expr {
    pub fn new_atom(atom: Token) -> (r: Expr)
        ensures
            r == Expr::Atom(atom),
    {
        Expr::Atom(atom)
    }

    pub fn new_composed(car: Expr, cdr: Expr) -> (r: Expr)
        ensures
            r == pair(car, cdr),
    {
        Expr::Composed { car: Box::new(car), cdr: Box::new(cdr) }
    }

    /// A copy of the tree that Verus knows to be equal to it.
    pub fn dup(&self) -> (r: Expr)
        ensures
            r == *self,
        decreases self,
    {
        match self {
            Expr::Atom(t) => Expr::Atom(t.dup()),
            Expr::Composed { car, cdr } => {
                let a = car.dup();
                let d = cdr.dup();
                Expr::Composed { car: Box::new(a), cdr: Box::new(d) }
            },
        }
    }
}

} // verus!
