use super::lexer::{PositionedToken, Token, TokenModel, TokenizationErr};
use vstd::prelude::*;

verus! {

#[derive(Debug)]
pub enum ParseErr {
    Tokenization(TokenizationErr),
    UnexpectedTokenOrEof(UnexpectedTokenOrEofErr),
}

/// The kinds of token that would have been accepted, and what was found instead.
#[derive(Debug)]
pub struct UnexpectedTokenOrEofErr {
    pub expected: Vec<ExpectedToken>,
    pub actual: TokenOrEof,
}

#[derive(Debug)]
pub enum TokenOrEof {
    Token(PositionedToken),
    Eof,
}

impl TokenOrEof {
    pub fn token(self) -> (r: Option<PositionedToken>)
        ensures
            match self {
                TokenOrEof::Token(t) => r == Some(t),
                TokenOrEof::Eof => r is None,
            },
    {
        match self {
            TokenOrEof::Token(t) => Some(t),
            TokenOrEof::Eof => None,
        }
    }
}

#[derive(Clone, Copy, PartialEq, Eq, Debug, Structural)]
pub enum ExpectedToken {
    Eof,
    Ident,
    Lambda,
    Dot,
    LParen,
    RParen,
}

/// Whether a token of kind `t` is one that `e` accepts; no token is an end of input.
pub open spec fn expects(e: ExpectedToken, t: TokenModel) -> bool {
    match e {
        ExpectedToken::Eof => false,
        ExpectedToken::Ident => t is Ident,
        ExpectedToken::Lambda => t is Lambda,
        ExpectedToken::Dot => t is Dot,
        ExpectedToken::LParen => t is LParen,
        ExpectedToken::RParen => t is RParen,
    }
}

impl ExpectedToken {
    /// Whether `t` is a token of this kind.
    pub fn matcher(&self, t: &Token) -> (r: bool)
        ensures
            r == expects(*self, t@),
    {
        match self {
            ExpectedToken::Eof => false,
            ExpectedToken::Ident => t.is_ident(),
            ExpectedToken::Lambda => t.is_lambda(),
            ExpectedToken::Dot => t.is_dot(),
            ExpectedToken::LParen => t.is_l_paren(),
            ExpectedToken::RParen => t.is_r_paren(),
        }
    }
}

} // verus!
