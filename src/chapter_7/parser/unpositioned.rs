use super::err::{ExpectedToken, ParseErr as PositionedParseErr, TokenOrEof as PositionedTokenOrEof};
use super::lexer::{Token, TokenizationErr};
use crate::chapter_7::term::named::{self, no_position, NamedModel, Term as NamedTerm};
use vstd::prelude::*;

verus! {

/// A named term without positions, for comparing parse results.
#[derive(Debug, PartialEq, Eq)]
pub enum Term {
    Var(Var),
    Abs(Box<Abs>),
    App(Box<App>),
}

#[derive(Debug, PartialEq, Eq)]
pub struct Var {
    pub name: String,
}

#[derive(Debug, PartialEq, Eq)]
pub struct Abs {
    pub param: Var,
    pub body: Term,
}

#[derive(Debug, PartialEq, Eq)]
pub struct App {
    pub callee: Term,
    pub arg: Term,
}

#[derive(Debug, PartialEq, Eq)]
pub enum ParseErr {
    Tokenization(TokenizationErr),
    UnexpectedTokenOrEof(UnexpectedTokenOrEofErr),
}

#[derive(Debug, PartialEq, Eq)]
pub struct UnexpectedTokenOrEofErr {
    pub expected: Vec<ExpectedToken>,
    pub actual: TokenOrEof,
}

#[derive(Debug, PartialEq, Eq)]
pub enum TokenOrEof {
    Token(Token),
    Eof,
}

/// `m` with every position replaced by the empty one.
pub open spec fn erased(m: NamedModel) -> NamedModel
    decreases m,
{
    match m {
        NamedModel::Var(n, _) => NamedModel::Var(n, no_position()),
        NamedModel::Abs(p, _, b, _) => NamedModel::Abs(
            p,
            no_position(),
            Box::new(erased(*b)),
            no_position(),
        ),
        NamedModel::App(c, a, _) => NamedModel::App(
            Box::new(erased(*c)),
            Box::new(erased(*a)),
            no_position(),
        ),
    }
}

pub open spec fn model_of(t: Term) -> NamedModel
    decreases t,
{
    match t {
        Term::Var(v) => NamedModel::Var(v.name@, no_position()),
        Term::Abs(a) => NamedModel::Abs(
            a.param.name@,
            no_position(),
            Box::new(model_of(a.body)),
            no_position(),
        ),
        Term::App(a) => NamedModel::App(
            Box::new(model_of(a.callee)),
            Box::new(model_of(a.arg)),
            no_position(),
        ),
    }
}

impl View for Term {
    type V = NamedModel;

    open spec fn view(&self) -> NamedModel {
        model_of(*self)
    }
}

pub fn var(name: &str) -> (r: Term)
    ensures
        r@ == NamedModel::Var(name@, no_position()),
{
    Term::Var(Var { name: String::from_str(name) })
}

pub fn abs(param: &str, body: Term) -> (r: Term)
    ensures
        r@ == NamedModel::Abs(param@, no_position(), Box::new(body@), no_position()),
{
    Term::Abs(Box::new(Abs { param: Var { name: String::from_str(param) }, body }))
}

pub fn app(callee: Term, arg: Term) -> (r: Term)
    ensures
        r@ == NamedModel::App(Box::new(callee@), Box::new(arg@), no_position()),
{
    Term::App(Box::new(App { callee, arg }))
}

/// `n` without its positions.
pub fn from_named(n: NamedTerm) -> (r: Term)
    ensures
        r@ == erased(n@),
    decreases n,
{
    match n {
        NamedTerm::Var(v) => Term::Var(Var { name: v.name }),
        NamedTerm::Abs(a) => {
            let named::Abs { param, body, .. } = *a;
            Term::Abs(Box::new(Abs { param: Var { name: param.name }, body: from_named(body) }))
        },
        NamedTerm::App(a) => {
            let named::App { callee, arg, .. } = *a;
            Term::App(Box::new(App { callee: from_named(callee), arg: from_named(arg) }))
        },
    }
}

/// `p` without positions: the token of an unexpected token is kept.
pub fn err_from_positioned(p: PositionedParseErr) -> (r: ParseErr)
    ensures
        match (p, r) {
            (PositionedParseErr::Tokenization(a), ParseErr::Tokenization(b)) => a == b,
            (PositionedParseErr::UnexpectedTokenOrEof(a), ParseErr::UnexpectedTokenOrEof(b)) => {
                &&& a.expected == b.expected
                &&& match (a.actual, b.actual) {
                    (PositionedTokenOrEof::Token(t), TokenOrEof::Token(u)) => t@.0 == u@,
                    (PositionedTokenOrEof::Eof, TokenOrEof::Eof) => true,
                    _ => false,
                }
            },
            _ => false,
        },
{
    match p {
        PositionedParseErr::Tokenization(e) => ParseErr::Tokenization(e),
        PositionedParseErr::UnexpectedTokenOrEof(e) => ParseErr::UnexpectedTokenOrEof(
            UnexpectedTokenOrEofErr {
                expected: e.expected,
                actual: match e.actual {
                    PositionedTokenOrEof::Token(positioned) => TokenOrEof::Token(
                        positioned.token().clone(),
                    ),
                    PositionedTokenOrEof::Eof => TokenOrEof::Eof,
                },
            },
        ),
    }
}

/// Drops the positions of a value.
pub trait IntoUnpositioned<T> {
    fn into_unpositioned(self) -> T;
}

impl IntoUnpositioned<Term> for NamedTerm {
    fn into_unpositioned(self) -> Term {
        from_named(self)
    }
}

impl IntoUnpositioned<ParseErr> for PositionedParseErr {
    fn into_unpositioned(self) -> ParseErr {
        err_from_positioned(self)
    }
}

impl IntoUnpositioned<Result<Term, ParseErr>> for Result<NamedTerm, PositionedParseErr> {
    fn into_unpositioned(self) -> Result<Term, ParseErr> {
        match self {
            Ok(t) => Ok(from_named(t)),
            Err(e) => Err(err_from_positioned(e)),
        }
    }
}

} // verus!
