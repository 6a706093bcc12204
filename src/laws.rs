use vstd::prelude::*;
use crate::env::Frames;
use crate::error::LispError;
use crate::eval::{
    apply_spec, args_spec, binary_spec, clauses_spec, eval_spec, is_symbol, sym_text,
    unary_spec,
};
use crate::intrinsics::{is_binary_spec, is_unary_spec};
use crate::expr::{Expr, appended, car_of, cdr_of, left_most_of, pair, spine_args};
use crate::lexer::Token;
use crate::parser::{items_spec, parse_spec};

verus! {

/// `e` evaluates in `env` to `r`, leaving the bindings `after`, within some
/// depth budget.
pub open spec fn evaluates(e: Expr, env: Frames, r: Result<Expr, LispError>, after: Frames) -> bool {
    r != Err::<Expr, LispError>(LispError::DepthExceeded) && exists|fuel: nat|
        #[trigger] eval_spec(e, env, fuel) == (r, after)
}

/// Evaluating `(quote E)` gives `E` itself, unevaluated, and binds nothing.
pub proof fn law_quote(q: String, e: Expr, env: Frames, fuel: nat)
    requires
        q@ == seq!['q', 'u', 'o', 't', 'e'],
        fuel >= 1,
    ensures
        eval_spec(pair(Expr::Atom(Token::Symbol(q)), e), env, fuel) == (Ok::<Expr, LispError>(e), env),
{
    let f = pair(Expr::Atom(Token::Symbol(q)), e);
    assert(left_most_of(Expr::Atom(Token::Symbol(q))) == Expr::Atom(Token::Symbol(q)));
    assert(left_most_of(f) == Expr::Atom(Token::Symbol(q)));
}

/// `(eval (quote E))` evaluates one level deeper to what `E` evaluates to.
pub proof fn law_eval_quote_depth(ev: String, q: String, e: Expr, env: Frames, fuel: nat)
    requires
        ev@ == seq!['e', 'v', 'a', 'l'],
        q@ == seq!['q', 'u', 'o', 't', 'e'],
        fuel >= 2,
    ensures
        eval_spec(
            pair(Expr::Atom(Token::Symbol(ev)), pair(Expr::Atom(Token::Symbol(q)), e)),
            env,
            fuel,
        ) == eval_spec(e, env, (fuel - 1) as nat),
{
    let inner = pair(Expr::Atom(Token::Symbol(q)), e);
    let f = pair(Expr::Atom(Token::Symbol(ev)), inner);
    assert(left_most_of(Expr::Atom(Token::Symbol(ev))) == Expr::Atom(Token::Symbol(ev)));
    assert(left_most_of(f) == Expr::Atom(Token::Symbol(ev)));
    law_quote(q, e, env, (fuel - 1) as nat);
}

/// `(eval (quote E))` evaluates to exactly what `E` evaluates to, with the
/// same bindings afterwards.
pub proof fn law_eval_quote(
    ev: String,
    q: String,
    e: Expr,
    env: Frames,
    r: Result<Expr, LispError>,
    after: Frames,
)
    requires
        ev@ == seq!['e', 'v', 'a', 'l'],
        q@ == seq!['q', 'u', 'o', 't', 'e'],
    ensures
        evaluates(
            pair(Expr::Atom(Token::Symbol(ev)), pair(Expr::Atom(Token::Symbol(q)), e)),
            env,
            r,
            after,
        ) <==> evaluates(e, env, r, after),
{
    let inner = pair(Expr::Atom(Token::Symbol(q)), e);
    let f = pair(Expr::Atom(Token::Symbol(ev)), inner);
    if evaluates(f, env, r, after) {
        let fuel = choose|fuel: nat| #[trigger] eval_spec(f, env, fuel) == (r, after);
        assert(fuel >= 2) by {
            if fuel == 1 {
                assert(left_most_of(Expr::Atom(Token::Symbol(ev))) == Expr::Atom(Token::Symbol(ev)));
    assert(left_most_of(f) == Expr::Atom(Token::Symbol(ev)));
                assert(eval_spec(inner, env, 0) == (
                    Err::<Expr, LispError>(LispError::DepthExceeded),
                    env,
                ));
            }
        }
        law_eval_quote_depth(ev, q, e, env, fuel);
        assert(eval_spec(e, env, (fuel - 1) as nat) == (r, after));
    }
    if evaluates(e, env, r, after) {
        let fuel = choose|fuel: nat| #[trigger] eval_spec(e, env, fuel) == (r, after);
        assert(fuel >= 1);
        law_eval_quote_depth(ev, q, e, env, fuel + 1);
        assert(eval_spec(f, env, fuel + 1) == (r, after));
    }
}

/// A token that stands for an atom: anything but a parenthesis.
pub open spec fn atom_token(t: Token) -> bool {
    !(t is LParen) && !(t is RParen)
}

/// The left fold of a sequence of atoms: the first stands alone, and each
/// later one is paired with the tree built so far.
pub open spec fn fold_atoms(xs: Seq<Token>) -> Expr
    decreases xs.len(),
{
    if xs.len() == 0 {
        Expr::Atom(Token::Nil)
    } else {
        appended(fold_atoms(xs.drop_last()), Expr::Atom(xs.last()))
    }
}

proof fn lemma_items_fold(xs: Seq<Token>, k: int)
    requires
        0 <= k <= xs.len(),
        forall|i: int| 0 <= i < xs.len() ==> atom_token(#[trigger] xs[i]),
    ensures
        items_spec(seq![Token::LParen] + xs + seq![Token::RParen], 1 + k, fold_atoms(xs.take(k)))
            == Ok::<(Expr, int), LispError>((fold_atoms(xs), xs.len() + 2int)),
    decreases xs.len() - k,
{
    let ts = seq![Token::LParen] + xs + seq![Token::RParen];
    if k == xs.len() {
        assert(xs.take(k) =~= xs);
        assert(ts[1 + k] == Token::RParen);
    } else {
        assert(ts[1 + k] == xs[k]);
        assert(atom_token(xs[k]));
        assert(xs.take(k + 1).drop_last() =~= xs.take(k));
        assert(fold_atoms(xs.take(k + 1)) == appended(fold_atoms(xs.take(k)), Expr::Atom(xs[k])));
        lemma_items_fold(xs, k + 1);
    }
}

/// A parenthesized sequence of atoms parses into their left fold.
pub proof fn law_parse_left_fold(xs: Seq<Token>)
    requires
        forall|i: int| 0 <= i < xs.len() ==> atom_token(#[trigger] xs[i]),
    ensures
        parse_spec(seq![Token::LParen] + xs + seq![Token::RParen]) == Ok::<Expr, LispError>(
            fold_atoms(xs),
        ),
{
    assert(xs.take(0) =~= Seq::<Token>::empty());
    lemma_items_fold(xs, 0);
}

/// The clause tests of `p` all evaluate, in order, to something other than
/// True: the bindings afterwards, or None where one fails or gives True.
pub open spec fn falls_through(p: Seq<Expr>, env: Frames, depth: nat) -> Option<Frames>
    decreases p.len(),
{
    if p.len() == 0 {
        Some(env)
    } else {
        let (r, env1) = eval_spec(car_of(p[0]), env, depth);
        if r is Ok && r->Ok_0 != Expr::Atom(Token::True) {
            falls_through(p.drop_first(), env1, depth)
        } else {
            None
        }
    }
}

proof fn lemma_cond_stops(
    cs: Seq<Expr>,
    i: int,
    p: Seq<Expr>,
    c: Expr,
    env: Frames,
    env1: Frames,
    env2: Frames,
    depth: nat,
)
    requires
        0 <= i,
        i + p.len() < cs.len(),
        cs.subrange(i, i + p.len()) == p,
        cs[i + p.len()] == c,
        falls_through(p, env, depth) == Some(env1),
        eval_spec(car_of(c), env1, depth) == (Ok::<Expr, LispError>(Expr::Atom(Token::True)), env2),
    ensures
        clauses_spec(cs, i, env, depth) == eval_spec(cdr_of(c), env2, depth),
    decreases p.len(),
{
    if p.len() > 0 {
        assert(cs[i] == cs.subrange(i, i + p.len())[0]);
        let (r, e1) = eval_spec(car_of(p[0]), env, depth);
        assert(cs.subrange(i + 1, i + 1 + p.drop_first().len()) =~= p.drop_first());
        lemma_cond_stops(cs, i + 1, p.drop_first(), c, e1, env1, env2, depth);
    }
}

/// Once a clause's test gives True, no later clause is looked at: `cond`
/// forms that agree up to that clause give the same result and bindings.
pub proof fn law_cond_short_circuit(
    p: Seq<Expr>,
    c: Expr,
    rest1: Seq<Expr>,
    rest2: Seq<Expr>,
    env: Frames,
    env1: Frames,
    env2: Frames,
    depth: nat,
)
    requires
        falls_through(p, env, depth) == Some(env1),
        eval_spec(car_of(c), env1, depth) == (Ok::<Expr, LispError>(Expr::Atom(Token::True)), env2),
    ensures
        clauses_spec(p.push(c) + rest1, 0, env, depth) == clauses_spec(p.push(c) + rest2, 0, env, depth),
        clauses_spec(p.push(c) + rest1, 0, env, depth) == eval_spec(cdr_of(c), env2, depth),
{
    let cs1 = p.push(c) + rest1;
    let cs2 = p.push(c) + rest2;
    assert(cs1.subrange(0, p.len() as int) =~= p);
    assert(cs2.subrange(0, p.len() as int) =~= p);
    assert(cs1[p.len() as int] == c);
    assert(cs2[p.len() as int] == c);
    lemma_cond_stops(cs1, 0, p, c, env, env1, env2, depth);
    lemma_cond_stops(cs2, 0, p, c, env, env1, env2, depth);
}

/// `after` has as many frames as `before`, and every frame but the innermost
/// is the same.
pub open spec fn keeps_outer(before: Frames, after: Frames) -> bool {
    before.len() == after.len() && forall|i: int| 0 <= i < before.len() - 1 ==> before[i] == after[i]
}

/// Evaluation writes only to the innermost frame: the number of frames and
/// every outer frame are as they were, whatever the form does.
pub proof fn law_writes_stay_innermost(e: Expr, env: Frames, fuel: nat)
    requires
        env.len() >= 1,
    ensures
        keeps_outer(env, eval_spec(e, env, fuel).1),
    decreases fuel, 1int, 0int,
{
    if fuel > 0 {
        let depth = (fuel - 1) as nat;
        if e is Composed {
            let op = left_most_of(e);
            if is_unary_spec(op) {
                lemma_unary_keeps(sym_text(op), cdr_of(e), env, depth);
            } else if is_binary_spec(op) {
                lemma_binary_keeps(sym_text(op), cdr_of(car_of(e)), cdr_of(e), env, depth);
            } else if op == Expr::Atom(Token::Apply) {
                lemma_apply_keeps(spine_args(e), env, depth);
            } else if op == Expr::Atom(Token::Cond) {
                lemma_clauses_keeps(spine_args(e), 0, env, depth);
            }
        }
    }
}

proof fn lemma_keeps_trans(a: Frames, b: Frames, c: Frames)
    requires
        keeps_outer(a, b),
        keeps_outer(b, c),
    ensures
        keeps_outer(a, c),
{
}

proof fn lemma_unary_keeps(name: Seq<char>, x: Expr, env: Frames, depth: nat)
    requires
        env.len() >= 1,
    ensures
        keeps_outer(env, unary_spec(name, x, env, depth).1),
    decreases depth, 2int, 0int,
{
    if name != seq!['q', 'u', 'o', 't', 'e'] {
        law_writes_stay_innermost(x, env, depth);
        let (r, env1) = eval_spec(x, env, depth);
        if r is Ok {
            law_writes_stay_innermost(r->Ok_0, env1, depth);
            lemma_keeps_trans(env, env1, eval_spec(r->Ok_0, env1, depth).1);
        }
    }
}

proof fn lemma_binary_keeps(name: Seq<char>, l: Expr, r: Expr, env: Frames, depth: nat)
    requires
        env.len() >= 1,
    ensures
        keeps_outer(env, binary_spec(name, l, r, env, depth).1),
    decreases depth, 2int, 0int,
{
    law_writes_stay_innermost(l, env, depth);
    let (lr, env1) = eval_spec(l, env, depth);
    law_writes_stay_innermost(r, env1, depth);
    lemma_keeps_trans(env, env1, eval_spec(r, env1, depth).1);
}

proof fn lemma_clauses_keeps(cs: Seq<Expr>, i: int, env: Frames, depth: nat)
    requires
        env.len() >= 1,
    ensures
        keeps_outer(env, clauses_spec(cs, i, env, depth).1),
    decreases depth, 2int, cs.len() - i,
{
    if 0 <= i < cs.len() {
        law_writes_stay_innermost(car_of(cs[i]), env, depth);
        let (r, env1) = eval_spec(car_of(cs[i]), env, depth);
        law_writes_stay_innermost(cdr_of(cs[i]), env1, depth);
        lemma_keeps_trans(env, env1, eval_spec(cdr_of(cs[i]), env1, depth).1);
        lemma_clauses_keeps(cs, i + 1, env1, depth);
        lemma_keeps_trans(env, env1, clauses_spec(cs, i + 1, env1, depth).1);
    }
}

proof fn lemma_args_keeps(
    args: Seq<Expr>,
    params: Seq<Expr>,
    i: int,
    env: Frames,
    depth: nat,
    frame: Map<Seq<char>, Expr>,
)
    requires
        env.len() >= 1,
    ensures
        keeps_outer(env, args_spec(args, params, i, env, depth, frame).1),
    decreases depth, 2int, params.len() - i,
{
    if 0 <= i < params.len() && i + 1 < args.len() {
        law_writes_stay_innermost(args[i + 1], env, depth);
        let (r, env1) = eval_spec(args[i + 1], env, depth);
        if r is Ok {
            let f1 = frame.insert(sym_text(params[i]), r->Ok_0);
            lemma_args_keeps(args, params, i + 1, env1, depth, f1);
            lemma_keeps_trans(env, env1, args_spec(args, params, i + 1, env1, depth, f1).1);
        }
    }
}

proof fn lemma_apply_keeps(args: Seq<Expr>, env: Frames, depth: nat)
    requires
        env.len() >= 1,
    ensures
        keeps_outer(env, apply_spec(args, env, depth).1),
    decreases depth, 3int, 0int,
{
    if args.len() > 0 && is_symbol(args[0]) {
        if let Some(lam) = crate::env::lookup(env, sym_text(args[0])) {
            let params = crate::eval::lambda_params(lam);
            lemma_args_keeps(args, params, 0, env, depth, Map::empty());
            let (r, env1) = args_spec(args, params, 0, env, depth, Map::empty());
            if r is Ok {
                let inner = env1.push(r->Ok_0);
                law_writes_stay_innermost(cdr_of(lam), inner, depth);
                let env2 = eval_spec(cdr_of(lam), inner, depth).1;
                assert(keeps_outer(env1, env2.drop_last())) by {
                    assert forall|i: int| 0 <= i < env1.len() - 1 implies env1[i] == env2.drop_last()[i] by {
                        assert(inner[i] == env1[i]);
                    }
                }
                lemma_keeps_trans(env, env1, env2.drop_last());
            }
        }
    }
}

} // verus!
