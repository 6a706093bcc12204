use vstd::prelude::*;
use std::collections::VecDeque;
use crate::consts::nil_atom;
use crate::error::LispError;
use crate::expr::{Expr, appended};
use crate::intrinsics::append;
use crate::lexer::{Lexer, Token, lexes};

verus! {

broadcast use vstd::std_specs::vecdeque::group_vec_dequeue_axioms;

/// Reading the elements of an open form from token `i` on, with `acc` the
/// tree of the elements read so far: the finished tree and the position after
/// its close parenthesis. Nested forms are read first, then folded in.
pub open spec fn items_spec(ts: Seq<Token>, i: int, acc: Expr) -> Result<(Expr, int), LispError>
    decreases ts.len() - i,
{
    if i < 0 || i >= ts.len() {
        Err(LispError::UnexpectedEnd)
    } else {
        match ts[i] {
            Token::RParen => Ok((acc, i + 1)),
            Token::LParen => match items_spec(ts, i + 1, Expr::Atom(Token::Nil)) {
                Err(e) => Err(e),
                Ok((sub, j)) => if i < j <= ts.len() {
                    items_spec(ts, j, appended(acc, sub))
                } else {
                    Err(LispError::UnexpectedEnd)
                },
            },
            t => items_spec(ts, i + 1, appended(acc, Expr::Atom(t))),
        }
    }
}

/// The tree of the form that the tokens start with.
pub open spec fn parse_spec(ts: Seq<Token>) -> Result<Expr, LispError> {
    if ts.len() == 0 || ts[0] != Token::LParen {
        Err(LispError::ExpectedOpenParen)
    } else {
        match items_spec(ts, 1, Expr::Atom(Token::Nil)) {
            Ok((e, _)) => Ok(e),
            Err(e) => Err(e),
        }
    }
}

/// Reads the elements of an open form from position `i` on.
fn parse_items(tokens: &VecDeque<Token>, i: usize, start: Expr) -> (r: Result<(Expr, usize), LispError>)
    ensures
        match items_spec(tokens@, i as int, start) {
            Ok((e, j)) => r == Ok::<(Expr, usize), LispError>((e, j as usize)) && i < j <= tokens@.len(),
            Err(x) => r == Err::<(Expr, usize), LispError>(x),
        },
    decreases tokens@.len() - i,
{
    let mut pos = i;
    let mut acc = start;
    while pos < tokens.len()
        invariant
            i <= pos,
            items_spec(tokens@, i as int, start) == items_spec(tokens@, pos as int, acc),
        decreases tokens@.len() - pos,
    {
        match &tokens[pos] {
            Token::RParen => {
                assert(items_spec(tokens@, pos as int, acc) == Ok::<(Expr, int), LispError>((acc, pos + 1)));
                return Ok((acc, pos + 1));
            },
            Token::LParen => {
                let (sub, j) = match parse_items(tokens, pos + 1, nil_atom()) {
                    Ok(p) => p,
                    Err(e) => return Err(e),
                };
                acc = append(acc, sub);
                pos = j;
            },
            t => {
                acc = append(acc, Expr::Atom(t.dup()));
                pos += 1;
            },
        }
    }
    Err(LispError::UnexpectedEnd)
}

/// Builds trees from tokens.
pub struct Parser;

impl Parser {
    /// The tree of the form that `tokens` start with: a parenthesized
    /// sequence, folded left into pairs. Tokens after its close parenthesis
    /// are not read.
    pub fn parse_tokens(tokens: &VecDeque<Token>) -> (r: Result<Expr, LispError>)
        ensures
            r == parse_spec(tokens@),
    {
        if tokens.len() == 0 {
            return Err(LispError::ExpectedOpenParen);
        }
        match &tokens[0] {
            Token::LParen => {},
            _ => return Err(LispError::ExpectedOpenParen),
        }
        match parse_items(tokens, 1, nil_atom()) {
            Ok((e, _)) => Ok(e),
            Err(e) => Err(e),
        }
    }

    /// The tree of the form that the text `source` holds.
    pub fn parse(source: &str) -> (r: Result<Expr, LispError>)
        ensures
            exists|toks: Seq<Token>| lexes(source@, toks) && r == parse_spec(toks),
    {
        let tokens = match Lexer::tokenize(source) {
            Ok(t) => t,
            Err(e) => return Err(e),
        };
        Self::parse_tokens(&tokens)
    }
}

} // verus!
