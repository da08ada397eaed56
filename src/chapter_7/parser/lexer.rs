use crate::chapter_7::term::named::push_char;
use crate::file_position::{FilePosition, FilePositionRange};
use vstd::prelude::*;

verus! {

#[derive(Debug, PartialEq, Eq)]
pub enum Token {
    Ident(String),
    Lambda,
    Dot,
    LParen,
    RParen,
}

/// What a token is, with an identifier's name as characters.
pub enum TokenModel {
    Ident(Seq<char>),
    Lambda,
    Dot,
    LParen,
    RParen,
}

impl View for Token {
    type V = TokenModel;

    open spec fn view(&self) -> TokenModel {
        match self {
            Token::Ident(s) => TokenModel::Ident(s@),
            Token::Lambda => TokenModel::Lambda,
            Token::Dot => TokenModel::Dot,
            Token::LParen => TokenModel::LParen,
            Token::RParen => TokenModel::RParen,
        }
    }
}

impl Clone for Token {
    fn clone(&self) -> (r: Token)
        ensures
            r == *self,
    {
        match self {
            Token::Ident(s) => Token::Ident(s.clone()),
            Token::Lambda => Token::Lambda,
            Token::Dot => Token::Dot,
            Token::LParen => Token::LParen,
            Token::RParen => Token::RParen,
        }
    }
}

impl Token {
    pub fn is_ident(&self) -> (r: bool)
        ensures
            r == (*self is Ident),
    {
        match self {
            Token::Ident(_) => true,
            _ => false,
        }
    }

    pub fn is_lambda(&self) -> (r: bool)
        ensures
            r == (*self is Lambda),
    {
        match self {
            Token::Lambda => true,
            _ => false,
        }
    }

    pub fn is_dot(&self) -> (r: bool)
        ensures
            r == (*self is Dot),
    {
        match self {
            Token::Dot => true,
            _ => false,
        }
    }

    pub fn is_l_paren(&self) -> (r: bool)
        ensures
            r == (*self is LParen),
    {
        match self {
            Token::LParen => true,
            _ => false,
        }
    }

    pub fn is_r_paren(&self) -> (r: bool)
        ensures
            r == (*self is RParen),
    {
        match self {
            Token::RParen => true,
            _ => false,
        }
    }
}

#[derive(Debug, PartialEq, Eq)]
pub struct PositionedToken {
    token: Token,
    position: FilePositionRange,
}

impl View for PositionedToken {
    type V = (TokenModel, FilePositionRange);

    closed spec fn view(&self) -> (TokenModel, FilePositionRange) {
        (self.token@, self.position)
    }
}

impl Clone for PositionedToken {
    fn clone(&self) -> (r: PositionedToken)
        ensures
            r@ == self@,
    {
        PositionedToken { token: self.token.clone(), position: self.position }
    }
}

impl PositionedToken {
    pub fn new(token: Token, position: FilePositionRange) -> (r: PositionedToken)
        ensures
            r@ == (token@, position),
    {
        PositionedToken { token, position }
    }

    pub fn token(&self) -> (r: &Token)
        ensures
            r@ == self@.0,
    {
        &self.token
    }

    pub fn position(&self) -> (r: FilePositionRange)
        ensures
            r == self@.1,
    {
        self.position
    }
}

/// A token recognised at the start of the remaining input, and how many
/// characters it covers.
#[derive(Debug, PartialEq, Eq)]
pub struct Match {
    pub token: Token,
    pub len: usize,
}

impl Match {
    pub fn token(&self) -> (r: &Token)
        ensures
            *r == self.token,
    {
        &self.token
    }

    pub fn len(&self) -> (r: usize)
        ensures
            r == self.len,
    {
        self.len
    }
}

/// The characters that `char::is_whitespace` accepts: Unicode's White_Space.
pub open spec fn is_whitespace(c: char) -> bool {
    let u = c as u32;
    (0x09 <= u <= 0x0d) || u == 0x20 || u == 0x85 || u == 0xa0 || u == 0x1680 || (0x2000 <= u
        <= 0x200a) || u == 0x2028 || u == 0x2029 || u == 0x202f || u == 0x205f || u == 0x3000
}

pub open spec fn is_ident_start(c: char) -> bool {
    ('a' <= c <= 'z') || ('A' <= c <= 'Z') || c == '_'
}

pub open spec fn is_ident_char(c: char) -> bool {
    is_ident_start(c) || ('0' <= c <= '9') || c == '\''
}

/// Where the run of identifier characters that starts at `i` ends.
pub open spec fn ident_end(s: Seq<char>, i: int) -> int
    decreases s.len() - i,
{
    if 0 <= i < s.len() && is_ident_char(s[i]) {
        ident_end(s, i + 1)
    } else {
        i
    }
}

/// The token that starts at `i`, by the fixed order identifier, lambda, dot,
/// left and right parenthesis, with the number of characters it covers.
pub open spec fn token_at(s: Seq<char>, i: int) -> Option<(TokenModel, int)> {
    if !(0 <= i < s.len()) {
        None
    } else if is_ident_start(s[i]) {
        let e = ident_end(s, i + 1);
        Some((TokenModel::Ident(s.subrange(i, e)), e - i))
    } else if s[i] == '\\' {
        Some((TokenModel::Lambda, 1))
    } else if s[i] == '.' {
        Some((TokenModel::Dot, 1))
    } else if s[i] == '(' {
        Some((TokenModel::LParen, 1))
    } else if s[i] == ')' {
        Some((TokenModel::RParen, 1))
    } else {
        None
    }
}

/// The position after `p` and character `c`.
pub open spec fn advance(p: FilePosition, c: char) -> FilePosition {
    if c == '\n' {
        FilePosition { index: (p.index + 1) as usize, line: (p.line + 1) as usize, column: 0 }
    } else {
        FilePosition { index: (p.index + 1) as usize, line: p.line, column: (p.column + 1) as usize }
    }
}

/// The position after `p` and the characters of `s` from `i` to `j`.
pub open spec fn advance_over(p: FilePosition, s: Seq<char>, i: int, j: int) -> FilePosition
    decreases j - i,
{
    if i < j {
        advance_over(advance(p, s[i]), s, i + 1, j)
    } else {
        p
    }
}

pub open spec fn start_position() -> FilePosition {
    FilePosition { index: 0, line: 1, column: 0 }
}

/// The tokens of `s` from `i` on, where `p` is the position of `i`: or the
/// place where no token starts.
pub open spec fn lex(s: Seq<char>, i: int, p: FilePosition) -> Result<
    Seq<(TokenModel, FilePositionRange)>,
    int,
>
    decreases s.len() - i, 1int,
{
    if !(0 <= i < s.len()) {
        Ok(Seq::empty())
    } else if is_whitespace(s[i]) {
        lex(s, i + 1, advance(p, s[i]))
    } else {
        match token_at(s, i) {
            Some((t, k)) => lex_after(s, i, p, t, k),
            None => Err(i),
        }
    }
}

pub open spec fn lex_after(s: Seq<char>, i: int, p: FilePosition, t: TokenModel, k: int) -> Result<
    Seq<(TokenModel, FilePositionRange)>,
    int,
>
    decreases s.len() - i, 0int,
{
    if 0 <= i && 1 <= k && i + k <= s.len() {
        let q = advance_over(p, s, i, i + k);
        match lex(s, i + k, q) {
            Ok(rest) => Ok(seq![(t, FilePositionRange { start: p, end: q })] + rest),
            Err(e) => Err(e),
        }
    } else {
        Err(i)
    }
}

pub proof fn lemma_ident_end(s: Seq<char>, i: int)
    requires
        0 <= i <= s.len(),
    ensures
        i <= ident_end(s, i) <= s.len(),
    decreases s.len() - i,
{
    if i < s.len() && is_ident_char(s[i]) {
        lemma_ident_end(s, i + 1);
    }
}

pub open spec fn tokens_view(v: Seq<PositionedToken>) -> Seq<(TokenModel, FilePositionRange)> {
    v.map_values(|t: PositionedToken| t@)
}

/// The input from where no token could be read.
#[derive(Debug, PartialEq, Eq)]
pub struct TokenizationErr(String);

impl TokenizationErr {
    pub fn from_string(s: String) -> (r: TokenizationErr)
        ensures
            r.str_view() == s@,
    {
        TokenizationErr(s)
    }

    pub closed spec fn str_view(&self) -> Seq<char> {
        self.0@
    }

    pub fn str(&self) -> (r: &str)
        ensures
            r@ == self.str_view(),
    {
        self.0.as_str()
    }
}

fn is_whitespace_char(c: char) -> (r: bool)
    ensures
        r == is_whitespace(c),
{
    let u = c as u32;
    (0x09 <= u && u <= 0x0d) || u == 0x20 || u == 0x85 || u == 0xa0 || u == 0x1680 || (0x2000 <= u
        && u <= 0x200a) || u == 0x2028 || u == 0x2029 || u == 0x202f || u == 0x205f || u == 0x3000
}

fn is_ident_start_char(c: char) -> (r: bool)
    ensures
        r == is_ident_start(c),
{
    ('a' <= c && c <= 'z') || ('A' <= c && c <= 'Z') || c == '_'
}

fn match_ident(s: &Vec<char>, i: usize) -> (r: Option<Match>)
    requires
        i < s@.len() < usize::MAX,
        is_ident_start(s@[i as int]),
    ensures
        r matches Some(m) && token_at(s@, i as int) == Some((m.token@, m.len as int)),
{
    let mut name = String::new();
    push_char(&mut name, s[i]);
    let mut j: usize = i + 1;
    while j < s.len() && (is_ident_start_char(s[j]) || ('0' <= s[j] && s[j] <= '9') || s[j] == '\'')
        invariant
            i < j <= s@.len(),
            ident_end(s@, i + 1) == ident_end(s@, j as int),
            name@ == s@.subrange(i as int, j as int),
        decreases s@.len() - j,
    {
        push_char(&mut name, s[j]);
        assert(s@.subrange(i as int, j + 1) =~= s@.subrange(i as int, j as int).push(s@[j as int]));
        j += 1;
    }
    Some(Match { token: Token::Ident(name), len: j - i })
}

fn match_lambda(s: &Vec<char>, i: usize) -> (r: Option<Match>)
    requires
        i < s@.len(),
    ensures
        r matches Some(m) ==> m.token == Token::Lambda && m.len == 1,
        r is Some <==> s@[i as int] == '\\',
{
    if s[i] == '\\' {
        Some(Match { token: Token::Lambda, len: 1 })
    } else {
        None
    }
}

fn match_dot(s: &Vec<char>, i: usize) -> (r: Option<Match>)
    requires
        i < s@.len(),
    ensures
        r matches Some(m) ==> m.token == Token::Dot && m.len == 1,
        r is Some <==> s@[i as int] == '.',
{
    if s[i] == '.' {
        Some(Match { token: Token::Dot, len: 1 })
    } else {
        None
    }
}

fn match_lparen(s: &Vec<char>, i: usize) -> (r: Option<Match>)
    requires
        i < s@.len(),
    ensures
        r matches Some(m) ==> m.token == Token::LParen && m.len == 1,
        r is Some <==> s@[i as int] == '(',
{
    if s[i] == '(' {
        Some(Match { token: Token::LParen, len: 1 })
    } else {
        None
    }
}

fn match_rparen(s: &Vec<char>, i: usize) -> (r: Option<Match>)
    requires
        i < s@.len(),
    ensures
        r matches Some(m) ==> m.token == Token::RParen && m.len == 1,
        r is Some <==> s@[i as int] == ')',
{
    if s[i] == ')' {
        Some(Match { token: Token::RParen, len: 1 })
    } else {
        None
    }
}

fn get_leading_token_match(s: &Vec<char>, i: usize) -> (r: Option<Match>)
    requires
        i < s@.len() < usize::MAX,
    ensures
        r matches Some(m) ==> token_at(s@, i as int) == Some((m.token@, m.len as int)) && 1 <= m.len
            <= s@.len() - i,
        r is None ==> token_at(s@, i as int) is None,
{
    if is_ident_start_char(s[i]) {
        proof {
            lemma_ident_end(s@, i + 1);
        }
        match_ident(s, i)
    } else if let Some(m) = match_lambda(s, i) {
        Some(m)
    } else if let Some(m) = match_dot(s, i) {
        Some(m)
    } else if let Some(m) = match_lparen(s, i) {
        Some(m)
    } else {
        match_rparen(s, i)
    }
}

/// Tracks the position in the source while characters are consumed.
#[derive(Clone, Copy, Debug, PartialEq, Eq)]
struct PositionTracker {
    position: FilePosition,
}

impl PositionTracker {
    fn new() -> (r: PositionTracker)
        ensures
            r.position == start_position(),
    {
        PositionTracker { position: FilePosition { index: 0, line: 1, column: 0 } }
    }

    /// Moves past the characters of `s` from `i` to `j`.
    fn update(&mut self, s: &Vec<char>, i: usize, j: usize)
        requires
            i <= j <= s@.len(),
            old(self).position.index == i,
            old(self).position.line <= i + 1,
            old(self).position.column <= i,
            s@.len() < usize::MAX,
        ensures
            final(self).position == advance_over(old(self).position, s@, i as int, j as int),
            final(self).position.index == j,
            final(self).position.line <= j + 1,
            final(self).position.column <= j,
    {
        let mut k: usize = i;
        while k < j
            invariant
                i <= k <= j <= s@.len(),
                s@.len() < usize::MAX,
                self.position.index == k,
                self.position.line <= k + 1,
                self.position.column <= k,
                advance_over(old(self).position, s@, i as int, j as int) == advance_over(
                    self.position,
                    s@,
                    k as int,
                    j as int,
                ),
            decreases j - k,
        {
            let c = s[k];
            self.position.index = self.position.index + 1;
            if c == '\n' {
                self.position.line = self.position.line + 1;
                self.position.column = 0;
            } else {
                self.position.column = self.position.column + 1;
            }
            k += 1;
        }
    }

    fn current_position(&self) -> (r: FilePosition)
        ensures
            r == self.position,
    {
        self.position
    }
}

pub open spec fn prepend(
    a: Seq<(TokenModel, FilePositionRange)>,
    r: Result<Seq<(TokenModel, FilePositionRange)>, int>,
) -> Result<Seq<(TokenModel, FilePositionRange)>, int> {
    match r {
        Ok(b) => Ok(a + b),
        Err(e) => Err(e),
    }
}

/// The characters of `src`.
fn chars_of(src: &str) -> (r: Vec<char>)
    ensures
        r@ == src@,
{
    let n = src.unicode_len();
    let mut out: Vec<char> = Vec::new();
    let mut i: usize = 0;
    while i < n
        invariant
            n == src@.len(),
            i <= n,
            out@ == src@.take(i as int),
        decreases n - i,
    {
        out.push(src.get_char(i));
        assert(src@.take(i + 1) =~= src@.take(i as int).push(src@[i as int]));
        i += 1;
    }
    assert(src@.take(n as int) =~= src@);
    out
}

/// Splits `src` into tokens, skipping whitespace.
pub fn tokenize(src: &str) -> (r: Result<Vec<PositionedToken>, TokenizationErr>)
    requires
        src@.len() < usize::MAX,
    ensures
        match lex(src@, 0, start_position()) {
            Ok(ts) => r matches Ok(v) && tokens_view(v@) == ts,
            Err(i) => r matches Err(e) && 0 <= i <= src@.len() && e.str_view() == src@.subrange(
                i,
                src@.len() as int,
            ),
        },
{
    let s = chars_of(src);
    let n = s.len();
    let mut out: Vec<PositionedToken> = Vec::new();
    let mut tracker = PositionTracker::new();
    let mut i: usize = 0;
    assert(tokens_view(out@) =~= Seq::empty());
    while i < n
        invariant
            n == s@.len(),
            s@ == src@,
            n < usize::MAX,
            i <= n,
            tracker.position.index == i,
            tracker.position.line <= i + 1,
            tracker.position.column <= i,
            lex(s@, 0, start_position()) == prepend(tokens_view(out@), lex(s@, i as int, tracker.position)),
        decreases n - i,
    {
        if is_whitespace_char(s[i]) {
            let ghost p = tracker.position;
            tracker.update(&s, i, i + 1);
            proof {
                reveal_with_fuel(advance_over, 2);
            }
            assert(advance_over(p, s@, i as int, i + 1) == advance(p, s@[i as int]));
            i += 1;
        } else if let Some(m) = get_leading_token_match(&s, i) {
            let start = tracker.current_position();
            let len = m.len();
            let ghost rest = lex(s@, i + len, advance_over(start, s@, i as int, i + len));
            tracker.update(&s, i, i + len);
            let end = tracker.current_position();
            let ghost before = out@;
            out.push(PositionedToken { token: m.token().clone(), position: FilePositionRange { start, end } });
            assert(tokens_view(out@) =~= tokens_view(before) + seq![(m.token@, FilePositionRange { start, end })]);
            assert(lex(s@, i as int, start) == lex_after(s@, i as int, start, m.token@, len as int));
            proof {
                match rest {
                    Ok(b) => {
                        assert(tokens_view(before) + (seq![(m.token@, FilePositionRange { start, end })] + b)
                            =~= tokens_view(out@) + b);
                    },
                    Err(_) => {},
                }
            }
            i += len;
        } else {
            let mut rest = String::new();
            let mut k: usize = i;
            while k < n
                invariant
                    i <= k <= n,
                    n == s@.len(),
                    rest@ == s@.subrange(i as int, k as int),
                decreases n - k,
            {
                push_char(&mut rest, s[k]);
                assert(s@.subrange(i as int, k + 1) =~= s@.subrange(i as int, k as int).push(s@[k as int]));
                k += 1;
            }
            return Err(TokenizationErr::from_string(rest));
        }
    }
    assert(tokens_view(out@) + Seq::empty() =~= tokens_view(out@));
    Ok(out)
}

} // verus!
