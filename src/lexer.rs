use vstd::prelude::*;
use vstd::string::*;
use vstd::std_specs::iter::IteratorSpec;
use std::collections::VecDeque;
use crate::error::LispError;

verus! {

/// A lexical unit of the language.
#[derive(Debug, Clone, PartialEq, Eq, Hash)]
pub enum Token {
    Integer(i32),
    Symbol(String),
    LParen,
    RParen,
    Nil,
    True,
    False,
    Lambda,
    Apply,
    Define,
    Cond,
}

/// Two tokens are the same lexeme: symbols compare by their text.
pub open spec fn same_token(a: Token, b: Token) -> bool {
    match a {
        Token::Integer(x) => b is Integer && x == b->Integer_0,
        Token::Symbol(x) => b is Symbol && x@ == b->Symbol_0@,
        _ => a == b,
    }
}

/// Whether the text of `s` is exactly the characters `k`.
pub fn text_is(s: &String, k: &[char]) -> (r: bool)
    ensures
        r == (s@ == k@),
{
    let t = s.as_str();
    let n = t.unicode_len();
    if n != k.len() {
        return false;
    }
    let mut i: usize = 0;
    while i < n
        invariant
            t@ == s@,
            n == s@.len(),
            n == k@.len(),
            i <= n,
            forall|j: int| 0 <= j < i ==> s@[j] == k@[j],
        decreases n - i,
    {
        if t.get_char(i) != k[i] {
            return false;
        }
        i += 1;
    }
    assert(s@ =~= k@);
    true
}

/// Whether the text of `s` is exactly the one character `c`.
pub fn text_is_char(s: &String, c: char) -> (r: bool)
    ensures
        r == (s@ == seq![c]),
{
    let t = s.as_str();
    if t.unicode_len() != 1 {
        return false;
    }
    let r = t.get_char(0) == c;
    assert(r ==> s@ =~= seq![c]);
    r
}

impl Token {
    /// A copy of the token that Verus knows to be equal to it.
    pub fn dup(&self) -> (r: Token)
        ensures
            r == *self,
    {
        match self {
            Token::Integer(n) => Token::Integer(*n),
            Token::Symbol(s) => Token::Symbol(s.clone()),
            Token::LParen => Token::LParen,
            Token::RParen => Token::RParen,
            Token::Nil => Token::Nil,
            Token::True => Token::True,
            Token::False => Token::False,
            Token::Lambda => Token::Lambda,
            Token::Apply => Token::Apply,
            Token::Define => Token::Define,
            Token::Cond => Token::Cond,
        }
    }

    /// Whether two tokens are the same lexeme.
    pub fn same(&self, other: &Token) -> (r: bool)
        ensures
            r == same_token(*self, *other),
    {
        match self {
            Token::Integer(x) => match other {
                Token::Integer(y) => *x == *y,
                _ => false,
            },
            Token::Symbol(x) => match other {
                Token::Symbol(y) => *x == *y,
                _ => false,
            },
            Token::LParen => matches!(other, Token::LParen),
            Token::RParen => matches!(other, Token::RParen),
            Token::Nil => matches!(other, Token::Nil),
            Token::True => matches!(other, Token::True),
            Token::False => matches!(other, Token::False),
            Token::Lambda => matches!(other, Token::Lambda),
            Token::Apply => matches!(other, Token::Apply),
            Token::Define => matches!(other, Token::Define),
            Token::Cond => matches!(other, Token::Cond),
        }
    }
}

/// Whether `c` is white space as Unicode's White_Space property says.
pub uninterp spec fn white_space(c: char) -> bool;

/// Relies on char::is_whitespace: whether `c` has the White_Space property.
#[verifier::external_body]
fn is_space(c: char) -> (r: bool)
    ensures
        r == white_space(c),
{
    c.is_whitespace()
}

/// ASCII lowercase of a character; any other character is unchanged.
pub open spec fn lower_char(c: char) -> char {
    if 'A' <= c <= 'Z' {
        ((c as u32 + 32) as u32) as char
    } else {
        c
    }
}

/// Relies on char::to_ascii_lowercase: 'A'..='Z' map to 'a'..='z', all else is kept.
#[verifier::external_body]
fn to_lower(c: char) -> (r: char)
    ensures
        r == lower_char(c),
{
    c.to_ascii_lowercase()
}

/// Relies on String::push: appends one character.
#[verifier::external_body]
fn push_char(s: &mut String, c: char)
    ensures
        final(s)@ == old(s)@.push(c),
{
    s.push(c)
}

pub open spec fn is_digit(c: char) -> bool {
    '0' <= c <= '9'
}

/// The value of a sequence of decimal digits.
pub open spec fn digits_value(d: Seq<char>) -> int
    decreases d.len(),
{
    if d.len() == 0 {
        0
    } else {
        digits_value(d.drop_last()) * 10 + (d.last() as u32 - '0' as u32)
    }
}

/// The 32-bit integer that a word writes: an optional sign, then one or
/// more decimal digits, with a value in range.
pub open spec fn int_literal(w: Seq<char>) -> Option<i32> {
    let signed = w.len() > 0 && (w[0] == '-' || w[0] == '+');
    let d = if signed {
        w.drop_first()
    } else {
        w
    };
    let v = if w.len() > 0 && w[0] == '-' {
        -digits_value(d)
    } else {
        digits_value(d)
    };
    if d.len() > 0 && (forall|i: int| 0 <= i < d.len() ==> is_digit(#[trigger] d[i])) && i32::MIN
        <= v <= i32::MAX {
        Some(v as i32)
    } else {
        None
    }
}

/// Relies on the FromStr impl of i32: an optional `+` or `-` and then only
/// decimal digits, with a value that fits; anything else is an error.
#[verifier::external_body]
fn parse_i32(w: &str) -> (r: Option<i32>)
    ensures
        r == int_literal(w@),
{
    w.parse::<i32>().ok()
}

/// The word with ASCII letters lowercased.
pub open spec fn lower(w: Seq<char>) -> Seq<char> {
    w.map_values(|c: char| lower_char(c))
}

pub open spec fn is_paren(c: char) -> bool {
    c == '(' || c == ')'
}

/// The piece being read, if any, as a list of pieces.
pub open spec fn flush(cur: Seq<char>) -> Seq<Seq<char>> {
    if cur.len() == 0 {
        Seq::empty()
    } else {
        seq![cur]
    }
}

/// The pieces of `s[i..]`, when `cur` is the piece being read: each
/// parenthesis is a piece of its own, white space separates pieces.
pub open spec fn pieces_from(s: Seq<char>, i: int, cur: Seq<char>) -> Seq<Seq<char>>
    decreases s.len() - i,
{
    if i < 0 || i >= s.len() {
        flush(cur)
    } else if is_paren(s[i]) {
        flush(cur) + seq![seq![s[i]]] + pieces_from(s, i + 1, Seq::empty())
    } else if white_space(s[i]) {
        flush(cur) + pieces_from(s, i + 1, Seq::empty())
    } else {
        pieces_from(s, i + 1, cur.push(s[i]))
    }
}

pub open spec fn pieces(s: Seq<char>) -> Seq<Seq<char>> {
    pieces_from(s, 0, Seq::empty())
}

/// `t` is the token that the lowercased piece `w` stands for: a parenthesis,
/// a keyword or literal, an integer, or else a symbol with that text.
pub open spec fn token_matches(t: Token, w: Seq<char>) -> bool {
    if w == seq!['('] {
        t == Token::LParen
    } else if w == seq![')'] {
        t == Token::RParen
    } else if w == seq!['l', 'a', 'm', 'b', 'd', 'a'] {
        t == Token::Lambda
    } else if w == seq!['a', 'p', 'p', 'l', 'y'] {
        t == Token::Apply
    } else if w == seq!['d', 'e', 'f', 'i', 'n', 'e'] {
        t == Token::Define
    } else if w == seq!['c', 'o', 'n', 'd'] {
        t == Token::Cond
    } else if w == seq!['t'] {
        t == Token::True
    } else if w == seq!['f'] {
        t == Token::False
    } else if w == seq!['n', 'i', 'l'] {
        t == Token::Nil
    } else {
        match int_literal(w) {
            Some(n) => t == Token::Integer(n),
            None => t is Symbol && t->Symbol_0@ == w,
        }
    }
}

/// `toks` are the tokens of the text `s`, one for each piece.
pub open spec fn lexes(s: Seq<char>, toks: Seq<Token>) -> bool {
    toks.len() == pieces(s).len() && forall|j: int|
        0 <= j < toks.len() ==> token_matches(#[trigger] toks[j], lower(pieces(s)[j]))
}

/// The token for a lowercased piece.
fn word_token(w: String) -> (t: Token)
    ensures
        token_matches(t, w@),
{
    if text_is_char(&w, '(') {
        Token::LParen
    } else if text_is_char(&w, ')') {
        Token::RParen
    } else if text_is(&w, &['l', 'a', 'm', 'b', 'd', 'a']) {
        Token::Lambda
    } else if text_is(&w, &['a', 'p', 'p', 'l', 'y']) {
        Token::Apply
    } else if text_is(&w, &['d', 'e', 'f', 'i', 'n', 'e']) {
        Token::Define
    } else if text_is(&w, &['c', 'o', 'n', 'd']) {
        Token::Cond
    } else if text_is_char(&w, 't') {
        Token::True
    } else if text_is_char(&w, 'f') {
        Token::False
    } else if text_is(&w, &['n', 'i', 'l']) {
        Token::Nil
    } else {
        match parse_i32(w.as_str()) {
            Some(n) => Token::Integer(n),
            None => Token::Symbol(w),
        }
    }
}

/// Turns source text into tokens.
pub struct Lexer;

impl Lexer {
    /// The tokens of `source`: parentheses stand alone, white space separates
    /// the other pieces, and each piece is classified after ASCII lowercasing.
    pub fn tokenize(source: &str) -> (r: Result<VecDeque<Token>, LispError>)
        ensures
            r is Ok,
            lexes(source@, r->Ok_0@),
    {
        let s = source;
        let mut chars = s.chars();
        proof {
            axiom_spec_iter(s);
        }
        let mut toks: VecDeque<Token> = VecDeque::new();
        let mut cur = String::new();
        let ghost mut raw: Seq<char> = Seq::empty();
        let ghost mut done: Seq<Seq<char>> = Seq::empty();
        let ghost mut i: int = 0;
        assert(done + pieces_from(s@, 0, raw) =~= pieces(s@));
        assert(cur@ =~= lower(raw));
        assert(s@.skip(0) =~= s@);
        loop
            invariant
                0 <= i <= s@.len(),
                chars.remaining() == s@.skip(i),
                pieces(s@) == done + pieces_from(s@, i, raw),
                cur@ == lower(raw),
                toks@.len() == done.len(),
                forall|j: int| 0 <= j < done.len() ==> token_matches(#[trigger] toks@[j], lower(done[j])),
            ensures
                i == s@.len(),
                pieces(s@) == done + flush(raw),
                cur@ == lower(raw),
                toks@.len() == done.len(),
                forall|j: int| 0 <= j < done.len() ==> token_matches(#[trigger] toks@[j], lower(done[j])),
            decreases s@.len() - i,
        {
            let ghost before = chars;
            let next = chars.next();
            proof {
                next_postcondition(&before, &chars, next);
            }
            let c = match next {
                Some(c) => c,
                None => {
                    assert(s@.skip(i).len() == 0);
                    break;
                },
            };
            assert(s@.skip(i)[0] == s@[i]);
            assert(s@.skip(i).drop_first() =~= s@.skip(i + 1));
            let ghost done0 = done;
            let ghost raw0 = raw;
            if c == '(' || c == ')' || is_space(c) {
                if cur.unicode_len() > 0 {
                    let w = cur;
                    cur = String::new();
                    let t = word_token(w);
                    toks.push_back(t);
                    proof {
                        done = done.push(raw);
                    }
                }
                proof {
                    if raw0.len() == 0 {
                        assert(flush(raw0) =~= Seq::<Seq<char>>::empty());
                        assert(done == done0);
                    } else {
                        assert(flush(raw0) =~= seq![raw0]);
                        assert(done == done0 + flush(raw0));
                    }
                    assert(done =~= done0 + flush(raw0));
                    raw = Seq::empty();
                    assert(cur@ =~= lower(raw));
                }
                if c == '(' || c == ')' {
                    let t = if c == '(' {
                        Token::LParen
                    } else {
                        Token::RParen
                    };
                    toks.push_back(t);
                    proof {
                        assert(lower(seq![c]) =~= seq![c]);
                        done = done.push(seq![c]);
                        assert(pieces_from(s@, i, raw0) == flush(raw0) + seq![seq![c]]
                            + pieces_from(s@, i + 1, Seq::empty()));
                        assert(done0 + pieces_from(s@, i, raw0) =~= done + pieces_from(
                            s@,
                            i + 1,
                            Seq::empty(),
                        ));
                    }
                } else {
                    proof {
                        assert(done0 + pieces_from(s@, i, raw0) =~= done + pieces_from(
                            s@,
                            i + 1,
                            Seq::empty(),
                        ));
                    }
                }
            } else {
                let lc = to_lower(c);
                push_char(&mut cur, lc);
                proof {
                    raw = raw.push(c);
                    assert(cur@ =~= lower(raw));
                }
            }
            proof {
                i = i + 1;
            }
        }
        if cur.unicode_len() > 0 {
            let t = word_token(cur);
            toks.push_back(t);
            proof {
                done = done.push(raw);
                assert(flush(raw) =~= seq![raw]);
            }
        } else {
            assert(flush(raw) =~= Seq::<Seq<char>>::empty());
        }
        assert(pieces(s@) =~= done);
        Ok(toks)
    }
}

} // verus!
