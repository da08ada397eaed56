pub mod err;
pub mod lexer;
pub mod unpositioned;

use super::term::named;
use crate::file_position::{FilePositionRange, Position};
use err::{expects, ExpectedToken, ParseErr, TokenOrEof, UnexpectedTokenOrEofErr};
use lexer::{lex, start_position, tokenize, tokens_view, PositionedToken, Token, TokenModel};
use named::{model_range, term_range, NamedModel, Term as NamedTerm};
use vstd::prelude::*;

verus! {

/// A grammar violation: the kinds of token that were expected, and the index
/// of the token found instead (the number of tokens for the end of input).
pub struct ErrModel {
    pub expected: Seq<ExpectedToken>,
    pub at: int,
}

pub open spec fn span(a: FilePositionRange, b: FilePositionRange) -> FilePositionRange {
    FilePositionRange { start: a.start, end: b.end }
}

pub open spec fn app_of(callee: NamedModel, arg: NamedModel) -> NamedModel {
    NamedModel::App(Box::new(callee), Box::new(arg), span(model_range(callee), model_range(arg)))
}

/// `term ::= abs | callable abs?`, from token `i`: the term and the index
/// after it.
pub open spec fn term_spec(toks: Seq<(TokenModel, FilePositionRange)>, i: int) -> Result<
    (NamedModel, int),
    ErrModel,
>
    decreases toks.len() - i, 3int,
{
    if !(0 <= i <= toks.len()) {
        Err(ErrModel { expected: seq![], at: i })
    } else {
        match opt_abs(toks, i) {
            Some(res) => res,
            None => match opt_callable(toks, i) {
                Some(Ok((c, j))) => if i < j <= toks.len() {
                    match opt_abs(toks, j) {
                        Some(Ok((a, k))) => Ok((app_of(c, a), k)),
                        Some(Err(e)) => Err(e),
                        None => Ok((c, j)),
                    }
                } else {
                    Ok((c, j))
                },
                Some(Err(e)) => Err(e),
                None => Err(
                    ErrModel {
                        expected: seq![ExpectedToken::Lambda, ExpectedToken::LParen, ExpectedToken::Ident],
                        at: i,
                    },
                ),
            },
        }
    }
}

/// `abs ::= λ IDENT . term`, if token `i` is a lambda.
pub open spec fn opt_abs(toks: Seq<(TokenModel, FilePositionRange)>, i: int) -> Option<
    Result<(NamedModel, int), ErrModel>,
>
    decreases toks.len() - i, 2int,
{
    if 0 <= i < toks.len() && toks[i].0 is Lambda {
        Some(
            if i + 1 < toks.len() && toks[i + 1].0 is Ident {
                if i + 2 < toks.len() && toks[i + 2].0 is Dot {
                    match term_spec(toks, i + 3) {
                        Ok((b, k)) => Ok(
                            (
                                NamedModel::Abs(
                                    toks[i + 1].0->Ident_0,
                                    toks[i + 1].1,
                                    Box::new(b),
                                    span(toks[i].1, model_range(b)),
                                ),
                                k,
                            ),
                        ),
                        Err(e) => Err(e),
                    }
                } else {
                    Err(ErrModel { expected: seq![ExpectedToken::Dot], at: i + 2 })
                }
            } else {
                Err(ErrModel { expected: seq![ExpectedToken::Ident], at: i + 1 })
            },
        )
    } else {
        None
    }
}

/// `arg ::= IDENT | ( term )`, if token `i` starts one.
pub open spec fn opt_arg(toks: Seq<(TokenModel, FilePositionRange)>, i: int) -> Option<
    Result<(NamedModel, int), ErrModel>,
>
    decreases toks.len() - i, 1int,
{
    if 0 <= i < toks.len() {
        match toks[i].0 {
            TokenModel::Ident(name) => Some(Ok((NamedModel::Var(name, toks[i].1), i + 1))),
            TokenModel::LParen => Some(
                match term_spec(toks, i + 1) {
                    Ok((t, k)) => if 0 <= k < toks.len() && toks[k].0 is RParen {
                        Ok((t, k + 1))
                    } else {
                        Err(ErrModel { expected: seq![ExpectedToken::RParen], at: k })
                    },
                    Err(e) => Err(e),
                },
            ),
            _ => None,
        }
    } else {
        None
    }
}

/// `callable ::= arg arg*`, applied left to right, if token `i` starts an arg.
pub open spec fn opt_callable(toks: Seq<(TokenModel, FilePositionRange)>, i: int) -> Option<
    Result<(NamedModel, int), ErrModel>,
>
    decreases toks.len() - i, 2int,
{
    if 0 <= i <= toks.len() {
        match opt_arg(toks, i) {
            None => None,
            Some(Err(e)) => Some(Err(e)),
            Some(Ok((left, j))) => Some(
                if i < j <= toks.len() {
                    args_after(toks, left, j)
                } else {
                    Ok((left, j))
                },
            ),
        }
    } else {
        None
    }
}

/// `acc` applied to each arg from token `j` on.
pub open spec fn args_after(toks: Seq<(TokenModel, FilePositionRange)>, acc: NamedModel, j: int) -> Result<
    (NamedModel, int),
    ErrModel,
>
    decreases toks.len() - j, 2int,
{
    if !(0 <= j <= toks.len()) {
        Ok((acc, j))
    } else {
        match opt_arg(toks, j) {
            None => Ok((acc, j)),
            Some(Err(e)) => Err(e),
            Some(Ok((a, k))) => if j < k <= toks.len() {
                args_after(toks, app_of(acc, a), k)
            } else {
                Ok((acc, j))
            },
        }
    }
}

/// A whole token sequence from `i` on as one term.
pub open spec fn parse_tokens_spec(toks: Seq<(TokenModel, FilePositionRange)>, i: int) -> Result<
    NamedModel,
    ErrModel,
> {
    match term_spec(toks, i) {
        Ok((m, j)) => if j == toks.len() {
            Ok(m)
        } else {
            Err(ErrModel { expected: seq![ExpectedToken::Eof], at: j })
        },
        Err(e) => Err(e),
    }
}

/// `err` reports `e` over `toks`.
pub open spec fn err_is(err: ParseErr, e: ErrModel, toks: Seq<(TokenModel, FilePositionRange)>) -> bool {
    match err {
        ParseErr::UnexpectedTokenOrEof(u) => u.expected@ == e.expected && if e.at == toks.len() {
            u.actual is Eof
        } else {
            0 <= e.at < toks.len() && match u.actual {
                TokenOrEof::Token(t) => t@ == toks[e.at],
                TokenOrEof::Eof => false,
            }
        },
        _ => false,
    }
}

/// `r` is the outcome `s`, and `pos` the index after the term read.
pub open spec fn outcome_is(
    r: Result<NamedTerm, ParseErr>,
    s: Result<(NamedModel, int), ErrModel>,
    toks: Seq<(TokenModel, FilePositionRange)>,
    pos: int,
) -> bool {
    match s {
        Ok((m, j)) => r matches Ok(t) && t@ == m && pos == j,
        Err(e) => r matches Err(err) && err_is(err, e, toks),
    }
}

pub open spec fn opt_outcome_is(
    r: Option<Result<NamedTerm, ParseErr>>,
    s: Option<Result<(NamedModel, int), ErrModel>>,
    toks: Seq<(TokenModel, FilePositionRange)>,
    start: int,
    pos: int,
) -> bool {
    match s {
        None => r is None && pos == start,
        Some(res) => r matches Some(rr) && outcome_is(rr, res, toks, pos),
    }
}

/// The index after a successful outcome lies past `i` and within the tokens.
pub open spec fn advances(s: Result<(NamedModel, int), ErrModel>, i: int, len: int) -> bool {
    s matches Ok((_, j)) ==> i < j <= len
}

pub open spec fn opt_advances(s: Option<Result<(NamedModel, int), ErrModel>>, i: int, len: int) -> bool {
    s matches Some(res) ==> advances(res, i, len)
}

/// Source text as one term, or where it fails: the index of the character
/// where no token starts, or a grammar violation.
pub enum ParseModelErr {
    Tokenization(int),
    Unexpected(ErrModel),
}

pub open spec fn parse_spec(s: Seq<char>) -> Result<NamedModel, ParseModelErr> {
    match lex(s, 0, start_position()) {
        Err(i) => Err(ParseModelErr::Tokenization(i)),
        Ok(toks) => match parse_tokens_spec(toks, 0) {
            Ok(m) => Ok(m),
            Err(e) => Err(ParseModelErr::Unexpected(e)),
        },
    }
}

/// Reads one term from `src`.
pub fn parse(src: &str) -> (r: Result<NamedTerm, ParseErr>)
    requires
        src@.len() < usize::MAX,
    ensures
        match parse_spec(src@) {
            Ok(m) => r matches Ok(t) && t@ == m,
            Err(ParseModelErr::Tokenization(i)) => r matches Err(ParseErr::Tokenization(e))
                && e.str_view() == src@.subrange(i, src@.len() as int),
            Err(ParseModelErr::Unexpected(e)) => r matches Err(err) && err_is(
                err,
                e,
                match lex(src@, 0, start_position()) {
                    Ok(toks) => toks,
                    Err(_) => Seq::empty(),
                },
            ),
        },
{
    match tokenize(src) {
        Err(err) => Err(ParseErr::Tokenization(err)),
        Ok(tokens) => TokenParser::from_tokens(tokens.as_slice()).parse(),
    }
}

/// A recursive-descent parser over a token sequence.
pub struct TokenParser<'a> {
    tokens: &'a [PositionedToken],
    pos: usize,
}

/// The abstraction that starts at `lambda`, spanning up to the end of `body`.
pub fn build_abs(lambda: &PositionedToken, param: named::Var, body: NamedTerm) -> (r: named::Abs)
    ensures
        r.position == span(lambda@.1, model_range(body@)),
        r.param == param,
        r.body == body,
{
    let end = body.position().end;
    named::Abs { param, body, position: FilePositionRange { start: lambda.position().start, end } }
}

impl<'a> TokenParser<'a> {
    pub closed spec fn toks(&self) -> Seq<(TokenModel, FilePositionRange)> {
        tokens_view(self.tokens@)
    }

    pub closed spec fn at(&self) -> int {
        self.pos as int
    }

    pub fn from_tokens(tokens: &'a [PositionedToken]) -> (r: TokenParser<'a>)
        ensures
            r.toks() == tokens_view(tokens@),
            r.at() == 0,
    {
        TokenParser { tokens, pos: 0 }
    }

    /// The one term that the tokens from here on make up.
    pub fn parse(self) -> (r: Result<NamedTerm, ParseErr>)
        requires
            self.at() <= self.toks().len(),
        ensures
            match parse_tokens_spec(self.toks(), self.at()) {
                Ok(m) => r matches Ok(t) && t@ == m,
                Err(e) => r matches Err(err) && err_is(err, e, self.toks()),
            },
    {
        let mut p = self;
        match p.consume_term() {
            Ok(term) => {
                if p.is_exhausted() {
                    Ok(term)
                } else {
                    let v = vec![ExpectedToken::Eof];
                    assert(v@ =~= seq![ExpectedToken::Eof]);
                    Err(p.expected_tokens_err(v))
                }
            },
            Err(e) => Err(e),
        }
    }

    fn consume_term(&mut self) -> (r: Result<NamedTerm, ParseErr>)
        requires
            old(self).pos <= old(self).tokens@.len(),
        ensures
            final(self).tokens == old(self).tokens,
            final(self).pos <= final(self).tokens@.len(),
            outcome_is(r, term_spec(old(self).toks(), old(self).pos as int), old(self).toks(), final(self).pos as int),
            advances(term_spec(old(self).toks(), old(self).pos as int), old(self).pos as int, old(self).tokens@.len() as int),
        decreases old(self).tokens@.len() - old(self).pos, 3int,
    {
        let ghost toks = self.toks();
        let ghost i = self.pos as int;
        if let Some(abs_res) = self.consume_opt_abs() {
            match abs_res {
                Ok(abs) => Ok(NamedTerm::Abs(Box::new(abs))),
                Err(e) => Err(e),
            }
        } else if let Some(callable_res) = self.consume_opt_callable() {
            match callable_res {
                Ok(callable) => {
                    let ghost j = self.pos as int;
                    if let Some(abs_res) = self.consume_opt_abs() {
                        match abs_res {
                            Ok(abs) => {
                                let arg = NamedTerm::Abs(Box::new(abs));
                                let start = callable.position().start;
                                let end = arg.position().end;
                                Ok(
                                    NamedTerm::App(
                                        Box::new(
                                            named::App {
                                                position: FilePositionRange { start, end },
                                                callee: callable,
                                                arg,
                                            },
                                        ),
                                    ),
                                )
                            },
                            Err(e) => Err(e),
                        }
                    } else {
                        Ok(callable)
                    }
                },
                Err(e) => Err(e),
            }
        } else {
            let v = vec![ExpectedToken::Lambda, ExpectedToken::LParen, ExpectedToken::Ident];
            assert(v@ =~= seq![ExpectedToken::Lambda, ExpectedToken::LParen, ExpectedToken::Ident]);
            Err(self.expected_tokens_err(v))
        }
    }

    fn consume_opt_abs(&mut self) -> (r: Option<Result<named::Abs, ParseErr>>)
        requires
            old(self).pos <= old(self).tokens@.len(),
        ensures
            final(self).tokens == old(self).tokens,
            final(self).pos <= final(self).tokens@.len(),
            opt_outcome_is(
                match r {
                    Some(Ok(a)) => Some(Ok(NamedTerm::Abs(Box::new(a)))),
                    Some(Err(e)) => Some(Err(e)),
                    None => None,
                },
                opt_abs(old(self).toks(), old(self).pos as int),
                old(self).toks(),
                old(self).pos as int,
                final(self).pos as int,
            ),
            opt_advances(opt_abs(old(self).toks(), old(self).pos as int), old(self).pos as int, old(self).tokens@.len() as int),
        decreases old(self).tokens@.len() - old(self).pos, 2int,
    {
        if let Some(lambda) = self.consume_opt_token(ExpectedToken::Lambda) {
            Some(
                match self.consume_var() {
                    Ok(param) => match self.consume_token(ExpectedToken::Dot) {
                        Ok(_) => match self.consume_term() {
                            Ok(body) => Ok(build_abs(&lambda, param, body)),
                            Err(err) => Err(err),
                        },
                        Err(err) => Err(err),
                    },
                    Err(err) => Err(err),
                },
            )
        } else {
            None
        }
    }

    fn consume_opt_callable(&mut self) -> (r: Option<Result<NamedTerm, ParseErr>>)
        requires
            old(self).pos <= old(self).tokens@.len(),
        ensures
            final(self).tokens == old(self).tokens,
            final(self).pos <= final(self).tokens@.len(),
            opt_outcome_is(r, opt_callable(old(self).toks(), old(self).pos as int), old(self).toks(), old(self).pos as int, final(self).pos as int),
            opt_advances(opt_callable(old(self).toks(), old(self).pos as int), old(self).pos as int, old(self).tokens@.len() as int),
        decreases old(self).tokens@.len() - old(self).pos, 2int,
    {
        let ghost toks = self.toks();
        let ghost len = self.tokens@.len() as int;
        let ghost i = self.pos as int;
        if let Some(arg_res) = self.consume_opt_arg() {
            match arg_res {
                Ok(left) => {
                    let ghost j = self.pos as int;
                    let mut acc = left;
                    loop
                        invariant
                            self.tokens@ == old(self).tokens@,
                            toks == self.toks(),
                            len == self.tokens@.len(),
                            i == old(self).pos,
                            toks == old(self).toks(),
                            i < j <= self.pos <= len,
                            opt_callable(toks, i) == Some(args_after(toks, left@, j)),
                            args_after(toks, acc@, self.pos as int) == args_after(toks, left@, j),
                        decreases len - self.pos,
                    {
                        match self.consume_opt_arg() {
                            Some(Ok(arg)) => {
                                let start = acc.position().start;
                                let end = arg.position().end;
                                assert(term_range(acc) == model_range(acc@));
                                assert(term_range(arg) == model_range(arg@));
                                acc = NamedTerm::App(
                                    Box::new(named::App { position: FilePositionRange { start, end }, callee: acc, arg }),
                                );
                            },
                            Some(Err(e)) => {
                                return Some(Err(e));
                            },
                            None => {
                                return Some(Ok(acc));
                            },
                        }
                    }
                },
                Err(e) => Some(Err(e)),
            }
        } else {
            None
        }
    }

    fn consume_opt_arg(&mut self) -> (r: Option<Result<NamedTerm, ParseErr>>)
        requires
            old(self).pos <= old(self).tokens@.len(),
        ensures
            final(self).tokens == old(self).tokens,
            final(self).pos <= final(self).tokens@.len(),
            opt_outcome_is(r, opt_arg(old(self).toks(), old(self).pos as int), old(self).toks(), old(self).pos as int, final(self).pos as int),
            opt_advances(opt_arg(old(self).toks(), old(self).pos as int), old(self).pos as int, old(self).tokens@.len() as int),
        decreases old(self).tokens@.len() - old(self).pos, 1int,
    {
        if let Some(var) = self.consume_opt_var() {
            Some(Ok(NamedTerm::Var(var)))
        } else if let Some(paren_exp_res) = self.consume_opt_paren_exp() {
            Some(paren_exp_res)
        } else {
            None
        }
    }

    fn consume_var(&mut self) -> (r: Result<named::Var, ParseErr>)
        requires
            old(self).pos <= old(self).tokens@.len(),
        ensures
            final(self).tokens == old(self).tokens,
            final(self).pos <= final(self).tokens@.len(),
            ({
                let toks = old(self).toks();
                let i = old(self).pos as int;
                if i < toks.len() && toks[i].0 is Ident {
                    r matches Ok(v) && v.name@ == toks[i].0->Ident_0 && v.position == toks[i].1
                        && final(self).pos == i + 1
                } else {
                    r matches Err(e) && err_is(e, ErrModel { expected: seq![ExpectedToken::Ident], at: i }, toks)
                }
            }),
    {
        if let Some(var) = self.consume_opt_var() {
            Ok(var)
        } else {
            let v = vec![ExpectedToken::Ident];
            assert(v@ =~= seq![ExpectedToken::Ident]);
            Err(self.expected_tokens_err(v))
        }
    }

    fn consume_opt_var(&mut self) -> (r: Option<named::Var>)
        requires
            old(self).pos <= old(self).tokens@.len(),
        ensures
            final(self).tokens == old(self).tokens,
            final(self).pos <= final(self).tokens@.len(),
            ({
                let toks = old(self).toks();
                let i = old(self).pos as int;
                if i < toks.len() && toks[i].0 is Ident {
                    r matches Some(v) && v.name@ == toks[i].0->Ident_0 && v.position == toks[i].1
                        && final(self).pos == i + 1
                } else {
                    r is None && final(self).pos == i
                }
            }),
    {
        if self.is_exhausted() {
            None
        } else if let Token::Ident(name) = self.tokens[self.pos].token() {
            let var = Some(named::Var { position: self.tokens[self.pos].position(), name: name.clone() });
            self.pos = self.pos + 1;
            var
        } else {
            None
        }
    }

    fn consume_opt_paren_exp(&mut self) -> (r: Option<Result<NamedTerm, ParseErr>>)
        requires
            old(self).pos <= old(self).tokens@.len(),
        ensures
            final(self).tokens == old(self).tokens,
            final(self).pos <= final(self).tokens@.len(),
            ({
                let toks = old(self).toks();
                let i = old(self).pos as int;
                if i < toks.len() && toks[i].0 is LParen {
                    opt_outcome_is(r, opt_arg(toks, i), toks, i, final(self).pos as int)
                        && opt_advances(opt_arg(toks, i), i, toks.len() as int)
                } else {
                    r is None && final(self).pos == i
                }
            }),
        decreases old(self).tokens@.len() - old(self).pos, 0int,
    {
        if let Some(_) = self.consume_opt_token(ExpectedToken::LParen) {
            Some(
                match self.consume_term() {
                    Ok(term) => match self.consume_token(ExpectedToken::RParen) {
                        Ok(_) => Ok(term),
                        Err(e) => Err(e),
                    },
                    Err(e) => Err(e),
                },
            )
        } else {
            None
        }
    }

    fn consume_token(&mut self, expected: ExpectedToken) -> (r: Result<PositionedToken, ParseErr>)
        requires
            old(self).pos <= old(self).tokens@.len(),
        ensures
            final(self).tokens == old(self).tokens,
            final(self).pos <= final(self).tokens@.len(),
            ({
                let toks = old(self).toks();
                let i = old(self).pos as int;
                if i < toks.len() && expects(expected, toks[i].0) {
                    r matches Ok(t) && t@ == toks[i] && final(self).pos == i + 1
                } else {
                    r matches Err(e) && err_is(e, ErrModel { expected: seq![expected], at: i }, toks)
                }
            }),
    {
        if let Some(token) = self.consume_opt_token(expected) {
            Ok(token)
        } else {
            let v = vec![expected];
            assert(v@ =~= seq![expected]);
            Err(self.expected_tokens_err(v))
        }
    }

    fn consume_opt_token(&mut self, expected: ExpectedToken) -> (r: Option<PositionedToken>)
        requires
            old(self).pos <= old(self).tokens@.len(),
        ensures
            final(self).tokens == old(self).tokens,
            final(self).pos <= final(self).tokens@.len(),
            ({
                let toks = old(self).toks();
                let i = old(self).pos as int;
                if i < toks.len() && expects(expected, toks[i].0) {
                    r matches Some(t) && t@ == toks[i] && final(self).pos == i + 1
                } else {
                    r is None && final(self).pos == i
                }
            }),
    {
        if self.is_exhausted() {
            None
        } else {
            let ptoken = &self.tokens[self.pos];
            if expected.matcher(ptoken.token()) {
                self.pos = self.pos + 1;
                Some(ptoken.clone())
            } else {
                None
            }
        }
    }

    fn is_exhausted(&self) -> (r: bool)
        requires
            self.pos <= self.tokens@.len(),
        ensures
            r == (self.pos == self.tokens@.len()),
    {
        self.pos >= self.tokens.len()
    }

    fn expected_tokens_err(&self, expected: Vec<ExpectedToken>) -> (r: ParseErr)
        requires
            self.pos <= self.tokens@.len(),
        ensures
            err_is(r, ErrModel { expected: expected@, at: self.pos as int }, self.toks()),
    {
        ParseErr::UnexpectedTokenOrEof(
            UnexpectedTokenOrEofErr {
                expected,
                actual: if self.is_exhausted() {
                    TokenOrEof::Eof
                } else {
                    TokenOrEof::Token(self.tokens[self.pos].clone())
                },
            },
        )
    }
}

} // verus!
