use super::lexer::{lex4, tokenize, Token};
use super::{term_builder, Term};
use vstd::prelude::*;

verus! {

pub open spec fn tok_is(toks: Seq<Token>, i: int, t: Token) -> bool {
    0 <= i < toks.len() && toks[i] == t
}

/// `kw term` from token `i`, with `wrap` around the term: the result and
/// where reading stopped.
pub open spec fn unary_from(toks: Seq<Token>, i: int, kw: Token) -> (Option<Term>, int)
    decreases toks.len() - i, 1int,
{
    if tok_is(toks, i, kw) {
        let (r, p) = term4(toks, i + 1);
        match r {
            Some(t) => (
                Some(
                    if kw == Token::Succ {
                        Term::Succ(Box::new(t))
                    } else if kw == Token::Pred {
                        Term::Pred(Box::new(t))
                    } else {
                        Term::IsZero(Box::new(t))
                    },
                ),
                p,
            ),
            None => (None, p),
        }
    } else {
        (None, i)
    }
}

/// `if term then term else term` from token `i`: the result and where
/// reading stopped, also where it failed.
pub open spec fn if_from(toks: Seq<Token>, i: int) -> (Option<Term>, int)
    decreases toks.len() - i, 1int,
{
    if tok_is(toks, i, Token::If) {
        let (g, k1) = term4(toks, i + 1);
        if g is None || !(i < k1 <= toks.len()) {
            (None, k1)
        } else if tok_is(toks, k1, Token::Then) {
            let (a, k2) = term4(toks, k1 + 1);
            if a is None || !(k1 < k2 <= toks.len()) {
                (None, k2)
            } else if tok_is(toks, k2, Token::Else) {
                let (b, k3) = term4(toks, k2 + 1);
                match b {
                    Some(b) => (Some(Term::If(Box::new(g->0), Box::new(a->0), Box::new(b))), k3),
                    None => (None, k3),
                }
            } else {
                (None, k2)
            }
        } else {
            (None, k1)
        }
    } else {
        (None, i)
    }
}

/// A term from token `i`, trying `true`, `false`, `if`, `0`, `succ`, `pred`
/// and `iszero` in turn, each from where the one before stopped.
pub open spec fn term4(toks: Seq<Token>, i: int) -> (Option<Term>, int)
    decreases toks.len() - i, 2int,
{
    if !(0 <= i <= toks.len()) {
        (None, i)
    } else if tok_is(toks, i, Token::True) {
        (Some(Term::True), i + 1)
    } else if tok_is(toks, i, Token::False) {
        (Some(Term::False), i + 1)
    } else {
        let (r1, k1) = if_from(toks, i);
        if r1 is Some || !(i <= k1 <= toks.len()) {
            (r1, k1)
        } else if tok_is(toks, k1, Token::Zero) {
            (Some(Term::Zero), k1 + 1)
        } else {
            let (r2, k2) = unary_from(toks, k1, Token::Succ);
            if r2 is Some || !(i <= k2 <= toks.len()) {
                (r2, k2)
            } else {
                let (r3, k3) = unary_from(toks, k2, Token::Pred);
                if r3 is Some || !(i <= k3 <= toks.len()) {
                    (r3, k3)
                } else {
                    unary_from(toks, k3, Token::IsZero)
                }
            }
        }
    }
}

/// The term that the tokens make up as a whole.
pub open spec fn parse4(toks: Seq<Token>) -> Option<Term> {
    let (r, p) = term4(toks, 0);
    if p == toks.len() {
        r
    } else {
        None
    }
}

pub fn parse(src: &str) -> (r: Option<Term>)
    ensures
        r == match lex4(src@, 0) {
            Some(toks) => parse4(toks),
            None => None,
        },
{
    match tokenize(src) {
        Some(tokens) => parse_tokens(tokens.as_slice()),
        None => None,
    }
}

fn parse_tokens(tokens: &[Token]) -> (r: Option<Term>)
    ensures
        r == parse4(tokens@),
{
    Parser::from_tokens(tokens).parse()
}

struct Parser<'a> {
    tokens: &'a [Token],
    pos: usize,
}

impl<'a> Parser<'a> {
    fn from_tokens(tokens: &'a [Token]) -> (r: Parser<'a>)
        ensures
            r.tokens@ == tokens@,
            r.pos == 0,
    {
        Parser { tokens, pos: 0 }
    }

    fn parse(self) -> (r: Option<Term>)
        requires
            self.pos == 0,
        ensures
            r == parse4(self.tokens@),
    {
        let mut p = self;
        let term = p.accept_term();
        if p.is_exhausted() {
            term
        } else {
            None
        }
    }

    fn accept_term(&mut self) -> (r: Option<Term>)
        requires
            old(self).pos <= old(self).tokens@.len(),
        ensures
            final(self).tokens@ == old(self).tokens@,
            (r, final(self).pos as int) == term4(old(self).tokens@, old(self).pos as int),
            old(self).pos <= final(self).pos <= final(self).tokens@.len(),
            r is Some ==> old(self).pos < final(self).pos,
        decreases old(self).tokens@.len() - old(self).pos, 2int,
    {
        if self.accept_token(Token::True) {
            Some(Term::True)
        } else if self.accept_token(Token::False) {
            Some(Term::False)
        } else if let Some(t) = self.accept_if() {
            Some(t)
        } else if self.accept_token(Token::Zero) {
            Some(Term::Zero)
        } else if let Some(t) = self.accept_unary(Token::Succ) {
            Some(t)
        } else if let Some(t) = self.accept_unary(Token::Pred) {
            Some(t)
        } else if let Some(t) = self.accept_unary(Token::IsZero) {
            Some(t)
        } else {
            None
        }
    }

    fn accept_token(&mut self, expected: Token) -> (r: bool)
        requires
            old(self).pos <= old(self).tokens@.len(),
        ensures
            final(self).tokens@ == old(self).tokens@,
            r == tok_is(old(self).tokens@, old(self).pos as int, expected),
            final(self).pos == if r {
                old(self).pos + 1
            } else {
                old(self).pos as int
            },
    {
        if self.pos < self.tokens.len() && self.tokens[self.pos] == expected {
            self.pos = self.pos + 1;
            true
        } else {
            false
        }
    }

    fn accept_if(&mut self) -> (r: Option<Term>)
        requires
            old(self).pos <= old(self).tokens@.len(),
        ensures
            final(self).tokens@ == old(self).tokens@,
            (r, final(self).pos as int) == if_from(old(self).tokens@, old(self).pos as int),
            old(self).pos <= final(self).pos <= final(self).tokens@.len(),
            r is Some ==> old(self).pos < final(self).pos,
        decreases old(self).tokens@.len() - old(self).pos, 1int,
    {
        if self.accept_token(Token::If) {
            if let Some(guard) = self.accept_term() {
                if self.accept_token(Token::Then) {
                    if let Some(t1) = self.accept_term() {
                        if self.accept_token(Token::Else) {
                            if let Some(t2) = self.accept_term() {
                                return Some(term_builder::if_(guard, t1, t2));
                            }
                        }
                    }
                }
            }
        }
        None
    }

    /// `kw term` for `kw` one of `succ`, `pred` and `iszero`.
    fn accept_unary(&mut self, kw: Token) -> (r: Option<Term>)
        requires
            old(self).pos <= old(self).tokens@.len(),
        ensures
            final(self).tokens@ == old(self).tokens@,
            (r, final(self).pos as int) == unary_from(old(self).tokens@, old(self).pos as int, kw),
            old(self).pos <= final(self).pos <= final(self).tokens@.len(),
            r is Some ==> old(self).pos < final(self).pos,
        decreases old(self).tokens@.len() - old(self).pos, 1int,
    {
        if self.accept_token(kw) {
            if let Some(t) = self.accept_term() {
                return Some(
                    if kw == Token::Succ {
                        term_builder::succ(t)
                    } else if kw == Token::Pred {
                        term_builder::pred(t)
                    } else {
                        term_builder::is_zero(t)
                    },
                );
            }
        }
        None
    }

    fn is_exhausted(&self) -> (r: bool)
        requires
            self.pos <= self.tokens@.len(),
        ensures
            r == (self.pos == self.tokens@.len()),
    {
        self.pos >= self.tokens.len()
    }
}

} // verus!
