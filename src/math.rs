use vstd::prelude::*;
use crate::consts::nil_atom;
use crate::expr::Expr;
use crate::lexer::Token;

verus! {

/// The integer that an atom holds, if it holds one.
pub open spec fn int_of(e: Expr) -> Option<i32> {
    match e {
        Expr::Atom(Token::Integer(n)) => Some(n),
        _ => None,
    }
}

/// The integer atom for `n`.
pub open spec fn int_atom(n: int) -> Expr {
    Expr::Atom(Token::Integer(n as i32))
}

pub open spec fn fits_i32(n: int) -> bool {
    i32::MIN <= n <= i32::MAX
}

/// Division that rounds toward zero, as Rust's `/` on integers does.
pub open spec fn trunc_div(a: int, b: int) -> int {
    let q: int = vstd::math::abs(a) as int / vstd::math::abs(b) as int;
    if (a < 0) != (b < 0) {
        -q
    } else {
        q
    }
}

/// What an arithmetic primitive computes on two integers; None where the
/// result does not exist or does not fit in 32 bits.
pub open spec fn arith(op: ArithOp, a: int, b: int) -> Option<int> {
    let v = match op {
        ArithOp::Add => a + b,
        ArithOp::Sub => a - b,
        ArithOp::Mul => a * b,
        ArithOp::Div => trunc_div(a, b),
    };
    if (op is Div && b == 0) || !fits_i32(v) {
        None
    } else {
        Some(v)
    }
}

/// The four arithmetic primitives.
pub enum ArithOp {
    Add,
    Sub,
    Mul,
    Div,
}

/// The result of an arithmetic primitive on two values: Nil unless both are
/// integers.
pub open spec fn arith_value(op: ArithOp, lhs: Expr, rhs: Expr) -> Expr {
    match (int_of(lhs), int_of(rhs)) {
        (Some(a), Some(b)) => int_atom(arith(op, a as int, b as int).unwrap()),
        _ => Expr::Atom(Token::Nil),
    }
}

/// Both values are integers and the primitive's result on them exists.
pub open spec fn arith_defined(op: ArithOp, lhs: Expr, rhs: Expr) -> bool {
    match (int_of(lhs), int_of(rhs)) {
        (Some(a), Some(b)) => arith(op, a as int, b as int) is Some,
        _ => true,
    }
}

pub fn add(lhs: Expr, rhs: Expr) -> (r: Expr)
    requires
        arith_defined(ArithOp::Add, lhs, rhs),
    ensures
        r == arith_value(ArithOp::Add, lhs, rhs),
{
    match (lhs, rhs) {
        (Expr::Atom(Token::Integer(a)), Expr::Atom(Token::Integer(b))) => Expr::Atom(Token::Integer(a + b)),
        _ => nil_atom(),
    }
}

pub fn sub(lhs: Expr, rhs: Expr) -> (r: Expr)
    requires
        arith_defined(ArithOp::Sub, lhs, rhs),
    ensures
        r == arith_value(ArithOp::Sub, lhs, rhs),
{
    match (lhs, rhs) {
        (Expr::Atom(Token::Integer(a)), Expr::Atom(Token::Integer(b))) => Expr::Atom(Token::Integer(a - b)),
        _ => nil_atom(),
    }
}

pub fn mul(lhs: Expr, rhs: Expr) -> (r: Expr)
    requires
        arith_defined(ArithOp::Mul, lhs, rhs),
    ensures
        r == arith_value(ArithOp::Mul, lhs, rhs),
{
    match (lhs, rhs) {
        (Expr::Atom(Token::Integer(a)), Expr::Atom(Token::Integer(b))) => Expr::Atom(Token::Integer(a * b)),
        _ => nil_atom(),
    }
}

pub fn div(lhs: Expr, rhs: Expr) -> (r: Expr)
    requires
        arith_defined(ArithOp::Div, lhs, rhs),
    ensures
        r == arith_value(ArithOp::Div, lhs, rhs),
{
    match (lhs, rhs) {
        (Expr::Atom(Token::Integer(a)), Expr::Atom(Token::Integer(b))) => {
            let ua: u64 = if a < 0 { (-(a as i64)) as u64 } else { a as u64 };
            let ub: u64 = if b < 0 { (-(b as i64)) as u64 } else { b as u64 };
            let q: u64 = ua / ub;
            let n: i64 = if (a < 0) != (b < 0) { -(q as i64) } else { q as i64 };
            Expr::Atom(Token::Integer(n as i32))
        },
        _ => nil_atom(),
    }
}

} // verus!
