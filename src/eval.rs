use vstd::prelude::*;
use crate::builtins::{atom, car, cdr, cons, eq, eq_of, null, quote};
use crate::consts::{nil_atom, truth};
use crate::env::{Env, Frames, bind, lookup};
use crate::error::LispError;
use crate::expr::{Expr, atoms_of, car_of, cdr_of, left_most_of, pair, spine_args};
use crate::intrinsics::{
    collect, flatten, is_binary, is_binary_spec, is_unary, is_unary_spec, left_most, marked,
};
use crate::lexer::{Lexer, Token, lexes, text_is, text_is_char};
use crate::parser::{Parser, parse_spec};
use crate::math::{ArithOp, arith, int_atom, int_of};

verus! {

/// The text of a symbol atom.
pub open spec fn sym_text(e: Expr) -> Seq<char> {
    e->Atom_0->Symbol_0@
}

pub open spec fn is_symbol(e: Expr) -> bool {
    e is Atom && e->Atom_0 is Symbol
}

/// A value shaped as `(lambda PARAMS BODY)`.
pub open spec fn is_lambda(v: Expr) -> bool {
    v is Composed && car_of(v) is Composed && car_of(car_of(v)) == Expr::Atom(Token::Lambda)
}

/// The parameter atoms of a lambda form, in the order written.
pub open spec fn lambda_params(v: Expr) -> Seq<Expr> {
    atoms_of(cdr_of(car_of(v)))
}

pub open spec fn all_symbols(s: Seq<Expr>) -> bool {
    forall|i: int| 0 <= i < s.len() ==> is_symbol(#[trigger] s[i])
}

/// The arithmetic primitive that a binary primitive's name denotes.
pub open spec fn arith_op(name: Seq<char>) -> ArithOp {
    if name == seq!['a', 'd', 'd'] || name == seq!['+'] {
        ArithOp::Add
    } else if name == seq!['s', 'u', 'b'] || name == seq!['-'] {
        ArithOp::Sub
    } else if name == seq!['m', 'u', 'l'] || name == seq!['*'] {
        ArithOp::Mul
    } else {
        ArithOp::Div
    }
}

/// What a binary primitive gives on two evaluated operands.
pub open spec fn binary_result(name: Seq<char>, l: Expr, r: Expr) -> Result<Expr, LispError> {
    if name == seq!['c', 'o', 'n', 's'] {
        Ok(pair(l, r))
    } else if name == seq!['e', 'q'] {
        Ok(truth(eq_of(l, r)))
    } else {
        match (int_of(l), int_of(r)) {
            (Some(a), Some(b)) => if arith_op(name) is Div && b == 0 {
                Err(LispError::DivisionByZero)
            } else {
                match arith(arith_op(name), a as int, b as int) {
                    Some(v) => Ok(int_atom(v)),
                    None => Err(LispError::Overflow),
                }
            },
            _ => Err(LispError::TypeMismatch),
        }
    }
}

/// The result of evaluating `e` in `env` with `fuel` levels of nesting left,
/// and the bindings afterwards.
pub open spec fn eval_spec(e: Expr, env: Frames, fuel: nat) -> (Result<Expr, LispError>, Frames)
    decreases fuel, 1int, 0int,
{
    if fuel == 0 {
        (Err(LispError::DepthExceeded), env)
    } else {
        let depth = (fuel - 1) as nat;
        match e {
            Expr::Atom(Token::Symbol(s)) => match lookup(env, s@) {
                Some(v) => (Ok(v), env),
                None => (Err(LispError::UndefinedSymbol), env),
            },
            Expr::Atom(_) => (Ok(e), env),
            Expr::Composed { .. } => {
                let op = left_most_of(e);
                if is_unary_spec(op) {
                    unary_spec(sym_text(op), cdr_of(e), env, depth)
                } else if is_binary_spec(op) {
                    binary_spec(sym_text(op), cdr_of(car_of(e)), cdr_of(e), env, depth)
                } else if op == Expr::Atom(Token::Apply) {
                    apply_spec(spine_args(e), env, depth)
                } else if op == Expr::Atom(Token::Define) {
                    define_spec(cdr_of(car_of(e)), cdr_of(e), env)
                } else if op == Expr::Atom(Token::Cond) {
                    clauses_spec(spine_args(e), 0, env, depth)
                } else {
                    (Ok(Expr::Atom(Token::Nil)), env)
                }
            },
        }
    }
}

/// A unary primitive applied to the operand `x`.
pub open spec fn unary_spec(name: Seq<char>, x: Expr, env: Frames, depth: nat) -> (
    Result<Expr, LispError>,
    Frames,
)
    decreases depth, 2int, 0int,
{
    if name == seq!['q', 'u', 'o', 't', 'e'] {
        (Ok(x), env)
    } else {
        let (r, env1) = eval_spec(x, env, depth);
        match r {
            Err(err) => (Err(err), env1),
            Ok(v) => if name == seq!['c', 'a', 'r'] {
                (Ok(car_of(v)), env1)
            } else if name == seq!['c', 'd', 'r'] {
                (Ok(cdr_of(v)), env1)
            } else if name == seq!['a', 't', 'o', 'm'] {
                (Ok(truth(v is Atom)), env1)
            } else if name == seq!['n', 'u', 'l', 'l'] {
                (Ok(truth(v == Expr::Atom(Token::Nil))), env1)
            } else {
                eval_spec(v, env1, depth)
            },
        }
    }
}

/// A binary primitive: the left operand is evaluated before the right one.
pub open spec fn binary_spec(name: Seq<char>, l: Expr, r: Expr, env: Frames, depth: nat) -> (
    Result<Expr, LispError>,
    Frames,
)
    decreases depth, 2int, 0int,
{
    let (lr, env1) = eval_spec(l, env, depth);
    match lr {
        Err(err) => (Err(err), env1),
        Ok(lv) => {
            let (rr, env2) = eval_spec(r, env1, depth);
            match rr {
                Err(err) => (Err(err), env2),
                Ok(rv) => (binary_result(name, lv, rv), env2),
            }
        },
    }
}

/// `define`: binds the name to the expression as written, unevaluated.
pub open spec fn define_spec(name: Expr, x: Expr, env: Frames) -> (Result<Expr, LispError>, Frames) {
    if is_symbol(name) {
        (Ok(Expr::Atom(Token::Nil)), bind(env, sym_text(name), x))
    } else {
        (Err(LispError::MalformedForm), env)
    }
}

/// `cond` from clause `i` on: the first clause whose test gives True has its
/// result evaluated; later tests are not evaluated.
pub open spec fn clauses_spec(cs: Seq<Expr>, i: int, env: Frames, depth: nat) -> (
    Result<Expr, LispError>,
    Frames,
)
    decreases depth, 2int, cs.len() - i,
{
    if i < 0 || i >= cs.len() {
        (Ok(Expr::Atom(Token::Nil)), env)
    } else {
        let (r, env1) = eval_spec(car_of(cs[i]), env, depth);
        match r {
            Err(err) => (Err(err), env1),
            Ok(t) => if t == Expr::Atom(Token::True) {
                eval_spec(cdr_of(cs[i]), env1, depth)
            } else {
                clauses_spec(cs, i + 1, env1, depth)
            },
        }
    }
}

/// The arguments `args[i + 1 ..]` evaluated in the caller's bindings, in
/// order, and bound to the parameters `params[i ..]` in `frame`.
pub open spec fn args_spec(
    args: Seq<Expr>,
    params: Seq<Expr>,
    i: int,
    env: Frames,
    depth: nat,
    frame: Map<Seq<char>, Expr>,
) -> (Result<Map<Seq<char>, Expr>, LispError>, Frames)
    decreases depth, 2int, params.len() - i,
{
    if i < 0 || i >= params.len() || i + 1 >= args.len() {
        (Ok(frame), env)
    } else {
        let (r, env1) = eval_spec(args[i + 1], env, depth);
        match r {
            Err(err) => (Err(err), env1),
            Ok(v) => args_spec(args, params, i + 1, env1, depth, frame.insert(sym_text(params[i]), v)),
        }
    }
}

/// `apply`: `args` are the elements after the keyword, the function's name first.
/// The body runs in a new innermost frame on top of the caller's bindings.
pub open spec fn apply_spec(args: Seq<Expr>, env: Frames, depth: nat) -> (
    Result<Expr, LispError>,
    Frames,
)
    decreases depth, 3int, 0int,
{
    if args.len() == 0 || !is_symbol(args[0]) {
        (Err(LispError::MalformedForm), env)
    } else {
        match lookup(env, sym_text(args[0])) {
            None => (Err(LispError::NotCallable), env),
            Some(lam) => if !is_lambda(lam) {
                (Err(LispError::NotCallable), env)
            } else if !all_symbols(lambda_params(lam)) {
                (Err(LispError::MalformedForm), env)
            } else if args.len() - 1 < lambda_params(lam).len() {
                (Err(LispError::ArityMismatch), env)
            } else {
                let (r, env1) = args_spec(args, lambda_params(lam), 0, env, depth, Map::empty());
                match r {
                    Err(err) => (Err(err), env1),
                    Ok(frame) => {
                        let (r2, env2) = eval_spec(cdr_of(lam), env1.push(frame), depth);
                        (r2, env2.drop_last())
                    },
                }
            },
        }
    }
}

/// The value bound to a symbol.
pub fn eval_symbol(expr: Expr, env: &Env) -> (r: Result<Expr, LispError>)
    requires
        is_symbol(expr),
    ensures
        r == (match lookup(env@, sym_text(expr)) {
            Some(v) => Ok(v),
            None => Err(LispError::UndefinedSymbol),
        }),
{
    match expr {
        Expr::Atom(Token::Symbol(s)) => match env.get(&s) {
            Some(v) => Ok(v),
            None => Err(LispError::UndefinedSymbol),
        },
        _ => Err(LispError::MalformedForm),
    }
}

/// Applies the unary primitive `op` to the operand `expr`.
pub fn eval_unary(op: Expr, expr: Expr, env: &mut Env, depth: u64) -> (r: Result<Expr, LispError>)
    requires
        old(env).wf(),
        is_unary_spec(op),
    ensures
        (r, final(env)@) == unary_spec(sym_text(op), expr, old(env)@, depth as nat),
        final(env)@.len() == old(env)@.len(),
    decreases depth, 2int, 0int,
{
    let name = match op {
        Expr::Atom(Token::Symbol(s)) => s,
        _ => return Ok(nil_atom()),
    };
    if text_is(&name, &['q', 'u', 'o', 't', 'e']) {
        return Ok(quote(expr));
    }
    let v = match eval_expr(expr, env, depth) {
        Ok(v) => v,
        Err(e) => return Err(e),
    };
    if text_is(&name, &['c', 'a', 'r']) {
        Ok(car(v))
    } else if text_is(&name, &['c', 'd', 'r']) {
        Ok(cdr(v))
    } else if text_is(&name, &['a', 't', 'o', 'm']) {
        Ok(atom(v))
    } else if text_is(&name, &['n', 'u', 'l', 'l']) {
        Ok(null(v))
    } else {
        match eval_expr(v, env, depth) {
            Ok(w) => Ok(crate::builtins::eval(w)),
            Err(e) => Err(e),
        }
    }
}

/// An arithmetic primitive on two evaluated operands.
fn eval_arith(name: &String, lhs: Expr, rhs: Expr) -> (r: Result<Expr, LispError>)
    requires
        crate::intrinsics::binary_name(name@),
        name@ != seq!['c', 'o', 'n', 's'],
        name@ != seq!['e', 'q'],
    ensures
        r == binary_result(name@, lhs, rhs),
{
    let (a, b) = match (&lhs, &rhs) {
        (Expr::Atom(Token::Integer(a)), Expr::Atom(Token::Integer(b))) => (*a, *b),
        _ => return Err(LispError::TypeMismatch),
    };
    let x = a as i64;
    let y = b as i64;
    if text_is(name, &['a', 'd', 'd']) || text_is_char(name, '+') {
        if x + y < i32::MIN as i64 || x + y > i32::MAX as i64 {
            return Err(LispError::Overflow);
        }
        Ok(crate::math::add(lhs, rhs))
    } else if text_is(name, &['s', 'u', 'b']) || text_is_char(name, '-') {
        if x - y < i32::MIN as i64 || x - y > i32::MAX as i64 {
            return Err(LispError::Overflow);
        }
        Ok(crate::math::sub(lhs, rhs))
    } else if text_is(name, &['m', 'u', 'l']) || text_is_char(name, '*') {
        assert(-0x8000_0000 * 0x8000_0000 <= x * y <= 0x8000_0000 * 0x8000_0000) by (nonlinear_arith)
            requires
                -0x8000_0000 <= x < 0x8000_0000,
                -0x8000_0000 <= y < 0x8000_0000,
        ;
        if x * y < i32::MIN as i64 || x * y > i32::MAX as i64 {
            return Err(LispError::Overflow);
        }
        Ok(crate::math::mul(lhs, rhs))
    } else {
        if b == 0 {
            return Err(LispError::DivisionByZero);
        }
        if a == i32::MIN && b == -1 {
            assert(vstd::math::abs(a as int) == 0x8000_0000);
            assert(vstd::math::abs(b as int) == 1);
            assert(0x8000_0000int / 1int == 0x8000_0000int);
            return Err(LispError::Overflow);
        }
        proof {
            lemma_trunc_div_fits(a as int, b as int);
        }
        Ok(crate::math::div(lhs, rhs))
    }
}

proof fn lemma_trunc_div_fits(a: int, b: int)
    requires
        i32::MIN <= a <= i32::MAX,
        i32::MIN <= b <= i32::MAX,
        b != 0,
        !(a == i32::MIN && b == -1),
    ensures
        crate::math::fits_i32(crate::math::trunc_div(a, b)),
{
    let x = vstd::math::abs(a) as int;
    let y = vstd::math::abs(b) as int;
    assert(0 <= x / y <= x) by (nonlinear_arith)
        requires
            x >= 0,
            y >= 1,
    ;
    if y == 1 {
        assert(x / 1int == x);
    } else {
        assert(x / y <= x / 2) by (nonlinear_arith)
            requires
                x >= 0,
                y >= 2,
        ;
    }
}

/// Applies the binary primitive `op`: `lhs` is evaluated before `rhs`.
pub fn eval_binary(op: Expr, lhs: Expr, rhs: Expr, env: &mut Env, depth: u64) -> (r: Result<
    Expr,
    LispError,
>)
    requires
        old(env).wf(),
        is_binary_spec(op),
    ensures
        (r, final(env)@) == binary_spec(sym_text(op), lhs, rhs, old(env)@, depth as nat),
        final(env)@.len() == old(env)@.len(),
    decreases depth, 2int, 0int,
{
    let l = match eval_expr(lhs, env, depth) {
        Ok(v) => v,
        Err(e) => return Err(e),
    };
    let r = match eval_expr(rhs, env, depth) {
        Ok(v) => v,
        Err(e) => return Err(e),
    };
    let name = match op {
        Expr::Atom(Token::Symbol(s)) => s,
        _ => return Ok(nil_atom()),
    };
    if text_is(&name, &['c', 'o', 'n', 's']) {
        Ok(cons(l, r))
    } else if text_is(&name, &['e', 'q']) {
        Ok(eq(l, r))
    } else {
        eval_arith(&name, l, r)
    }
}

/// Whether a value is shaped as `(lambda PARAMS BODY)`.
fn lambda_shaped(v: &Expr) -> (r: bool)
    ensures
        r == is_lambda(*v),
{
    match v {
        Expr::Composed { .. } => match car(v.dup()) {
            Expr::Composed { car: head, .. } => match *head {
                Expr::Atom(Token::Lambda) => true,
                _ => false,
            },
            _ => false,
        },
        _ => false,
    }
}

#[verifier::loop_isolation(false)]
/// `(apply NAME ARG ...)`: evaluates the arguments in the caller's bindings,
/// binds them to the parameters in a new frame, and evaluates the body there.
pub fn eval_apply(expr: Expr, env: &mut Env, depth: u64) -> (r: Result<Expr, LispError>)
    requires
        old(env).wf(),
        marked(expr),
    ensures
        (r, final(env)@) == apply_spec(spine_args(expr), old(env)@, depth as nat),
        final(env)@.len() == old(env)@.len(),
    decreases depth, 3int, 0int,
{
    let args = collect(expr);
    if args.len() == 0 {
        return Err(LispError::MalformedForm);
    }
    let fname = match &args[0] {
        Expr::Atom(Token::Symbol(s)) => s.clone(),
        _ => return Err(LispError::MalformedForm),
    };
    let lam = match env.get(&fname) {
        Some(v) => v,
        None => return Err(LispError::NotCallable),
    };
    if !lambda_shaped(&lam) {
        return Err(LispError::NotCallable);
    }
    let params = flatten(cdr(car(lam.dup())));
    let mut k: usize = 0;
    while k < params.len()
        invariant
            k <= params.len(),
            forall|j: int| 0 <= j < k ==> is_symbol(#[trigger] params@[j]),
        decreases params.len() - k,
    {
        match &params[k] {
            Expr::Atom(Token::Symbol(_)) => {},
            _ => return Err(LispError::MalformedForm),
        }
        k += 1;
    }
    if args.len() - 1 < params.len() {
        return Err(LispError::ArityMismatch);
    }
    let ghost old_env = env@;
    let ghost ps = lambda_params(lam);
    let mut frame: Vec<(String, Expr)> = Vec::new();
    let mut i: usize = 0;
    while i < params.len()
        invariant
            i <= params.len(),
            params@ == ps,
            all_symbols(ps),
            args@ == spine_args(expr),
            args.len() - 1 >= params.len(),
            env@.len() == old_env.len(),
            old_env.len() >= 1,
            args_spec(args@, ps, 0, old_env, depth as nat, Map::empty()) == args_spec(
                args@,
                ps,
                i as int,
                env@,
                depth as nat,
                crate::env::frame_view(frame@),
            ),
        decreases params.len() - i,
    {
        let ghost env_before = env@;
        let v = match eval_expr(args[i + 1].dup(), env, depth) {
            Ok(v) => v,
            Err(e) => {
                assert(args_spec(args@, ps, i as int, env_before, depth as nat, crate::env::frame_view(frame@)) == (
                    Err::<Map<Seq<char>, Expr>, LispError>(e),
                    env@,
                ));
                return Err(e);
            },
        };
        let name = match &params[i] {
            Expr::Atom(Token::Symbol(s)) => s.clone(),
            _ => return Err(LispError::MalformedForm),
        };
        let ghost before = frame@;
        frame.push((name, v));
        assert(frame@.drop_last() =~= before);
        i += 1;
    }
    env.push_frame(frame);
    let r = eval_expr(cdr(lam), env, depth);
    env.pop_frame();
    r
}

/// `(define NAME EXPR)`: binds `name` to `expr` unevaluated and gives Nil.
pub fn eval_define(name: Expr, expr: Expr, env: &mut Env) -> (r: Result<Expr, LispError>)
    requires
        old(env).wf(),
    ensures
        (r, final(env)@) == define_spec(name, expr, old(env)@),
        final(env)@.len() == old(env)@.len(),
{
    match name {
        Expr::Atom(Token::Symbol(s)) => {
            env.set(s, expr);
            Ok(nil_atom())
        },
        _ => Err(LispError::MalformedForm),
    }
}

#[verifier::loop_isolation(false)]
/// `(cond (TEST RESULT) ...)`: the result of the first clause whose test
/// gives True, or Nil when none does.
pub fn eval_cond(expr: Expr, env: &mut Env, depth: u64) -> (r: Result<Expr, LispError>)
    requires
        old(env).wf(),
        marked(expr),
    ensures
        (r, final(env)@) == clauses_spec(spine_args(expr), 0, old(env)@, depth as nat),
        final(env)@.len() == old(env)@.len(),
    decreases depth, 2int, 0int,
{
    let clauses = collect(expr);
    let ghost cs = clauses@;
    let mut i: usize = 0;
    while i < clauses.len()
        invariant
            i <= clauses.len(),
            clauses@ == cs,
            env@.len() == old(env)@.len(),
            old(env)@.len() >= 1,
            clauses_spec(cs, 0, old(env)@, depth as nat) == clauses_spec(cs, i as int, env@, depth as nat),
        decreases clauses.len() - i,
    {
        let ghost env_before = env@;
        let c = clauses[i].dup();
        assert(c == cs[i as int]);
        let t = match eval_expr(car(c.dup()), env, depth) {
            Ok(t) => t,
            Err(e) => {
                assert(clauses_spec(cs, i as int, env_before, depth as nat) == (
                    Err::<Expr, LispError>(e),
                    env@,
                ));
                return Err(e);
            },
        };
        if let Expr::Atom(Token::True) = t {
            let ghost env1 = env@;
            let r = eval_expr(cdr(c), env, depth);
            assert(clauses_spec(cs, i as int, env_before, depth as nat) == eval_spec(
                cdr_of(c),
                env1,
                depth as nat,
            ));
            return r;
        }
        i += 1;
    }
    Ok(nil_atom())
}

/// Evaluates `expr` in `env` with `fuel` levels of nesting left.
pub fn eval_expr(expr: Expr, env: &mut Env, fuel: u64) -> (r: Result<Expr, LispError>)
    requires
        old(env).wf(),
    ensures
        (r, final(env)@) == eval_spec(expr, old(env)@, fuel as nat),
        final(env)@.len() == old(env)@.len(),
    decreases fuel, 1int, 0int,
{
    if fuel == 0 {
        return Err(LispError::DepthExceeded);
    }
    let depth = fuel - 1;
    match expr {
        Expr::Atom(Token::Symbol(_)) => eval_symbol(expr, env),
        Expr::Atom(_) => Ok(expr),
        Expr::Composed { .. } => {
            let op = left_most(expr.dup());
            if is_unary(&op) {
                eval_unary(op, cdr(expr), env, depth)
            } else if is_binary(&op) {
                let l = cdr(car(expr.dup()));
                eval_binary(op, l, cdr(expr), env, depth)
            } else {
                match op {
                    Expr::Atom(Token::Apply) => eval_apply(expr, env, depth),
                    Expr::Atom(Token::Define) => eval_define(cdr(car(expr.dup())), cdr(expr), env),
                    Expr::Atom(Token::Cond) => eval_cond(expr, env, depth),
                    _ => Ok(nil_atom()),
                }
            }
        },
    }
}

/// How deeply evaluation may nest before it fails with `DepthExceeded`.
pub const MAX_DEPTH: u64 = 400;

/// Reads and evaluates source text.
pub struct Evaluator;

impl Evaluator {
    /// Tokenizes, parses and evaluates the one form that `source` holds, in `env`.
    pub fn eval(source: &str, env: &mut Env) -> (r: Result<Expr, LispError>)
        requires
            old(env).wf(),
        ensures
            final(env).wf(),
            exists|toks: Seq<Token>|
                lexes(source@, toks) && match parse_spec(toks) {
                    Err(e) => r == Err::<Expr, LispError>(e) && final(env)@ == old(env)@,
                    Ok(x) => (r, final(env)@) == eval_spec(x, old(env)@, MAX_DEPTH as nat),
                },
    {
        let tokens = match Lexer::tokenize(source) {
            Ok(t) => t,
            Err(e) => return Err(e),
        };
        let r = match Parser::parse_tokens(&tokens) {
            Ok(x) => eval_expr(x, env, MAX_DEPTH),
            Err(e) => Err(e),
        };
        assert(lexes(source@, tokens@));
        r
    }
}

} // verus!
