use crate::chapter_7::parser::lexer::is_whitespace;
use vstd::prelude::*;

verus! {

#[derive(Copy, Clone, Debug, PartialEq, Eq, Structural)]
pub enum Token {
    True,
    False,
    If,
    Then,
    Else,
    Zero,
    Succ,
    Pred,
    IsZero,
}

/// The spelling of keyword `k`, in the order in which keywords are tried.
pub open spec fn keyword(k: int) -> Seq<char> {
    if k == 0 {
        seq!['t', 'r', 'u', 'e']
    } else if k == 1 {
        seq!['f', 'a', 'l', 's', 'e']
    } else if k == 2 {
        seq!['i', 'f']
    } else if k == 3 {
        seq!['t', 'h', 'e', 'n']
    } else if k == 4 {
        seq!['e', 'l', 's', 'e']
    } else if k == 5 {
        seq!['0']
    } else if k == 6 {
        seq!['s', 'u', 'c', 'c']
    } else if k == 7 {
        seq!['p', 'r', 'e', 'd']
    } else {
        seq!['i', 's', 'z', 'e', 'r', 'o']
    }
}

pub open spec fn keyword_token(k: int) -> Token {
    if k == 0 {
        Token::True
    } else if k == 1 {
        Token::False
    } else if k == 2 {
        Token::If
    } else if k == 3 {
        Token::Then
    } else if k == 4 {
        Token::Else
    } else if k == 5 {
        Token::Zero
    } else if k == 6 {
        Token::Succ
    } else if k == 7 {
        Token::Pred
    } else {
        Token::IsZero
    }
}

pub open spec fn starts_with(s: Seq<char>, i: int, w: Seq<char>) -> bool {
    0 <= i && i + w.len() <= s.len() && s.subrange(i, i + w.len()) == w
}

/// The first keyword from the `k`-th on that `s` holds at `i`, with its length.
pub open spec fn keyword_from(s: Seq<char>, i: int, k: int) -> Option<(Token, int)>
    decreases 9 - k,
{
    if k >= 9 || k < 0 {
        None
    } else if starts_with(s, i, keyword(k)) {
        Some((keyword_token(k), keyword(k).len() as int))
    } else {
        keyword_from(s, i, k + 1)
    }
}

/// Whitespace and parentheses, which the lexer skips.
pub open spec fn skipped(c: char) -> bool {
    is_whitespace(c) || c == '(' || c == ')'
}

/// The tokens of `s` from `i` on, or `None` where no keyword starts.
pub open spec fn lex4(s: Seq<char>, i: int) -> Option<Seq<Token>>
    decreases s.len() - i,
{
    if !(0 <= i < s.len()) {
        Some(Seq::empty())
    } else if skipped(s[i]) {
        lex4(s, i + 1)
    } else {
        match keyword_from(s, i, 0) {
            Some((t, n)) => if n >= 1 && i + n <= s.len() {
                match lex4(s, i + n) {
                    Some(rest) => Some(seq![t] + rest),
                    None => None,
                }
            } else {
                None
            },
            None => None,
        }
    }
}

fn keyword_chars(k: usize) -> (r: Vec<char>)
    requires
        k < 9,
    ensures
        r@ == keyword(k as int),
{
    let r = if k == 0 {
        vec!['t', 'r', 'u', 'e']
    } else if k == 1 {
        vec!['f', 'a', 'l', 's', 'e']
    } else if k == 2 {
        vec!['i', 'f']
    } else if k == 3 {
        vec!['t', 'h', 'e', 'n']
    } else if k == 4 {
        vec!['e', 'l', 's', 'e']
    } else if k == 5 {
        vec!['0']
    } else if k == 6 {
        vec!['s', 'u', 'c', 'c']
    } else if k == 7 {
        vec!['p', 'r', 'e', 'd']
    } else {
        vec!['i', 's', 'z', 'e', 'r', 'o']
    };
    assert(r@ =~= keyword(k as int));
    r
}

fn keyword_token_of(k: usize) -> (r: Token)
    ensures
        r == keyword_token(k as int),
{
    if k == 0 {
        Token::True
    } else if k == 1 {
        Token::False
    } else if k == 2 {
        Token::If
    } else if k == 3 {
        Token::Then
    } else if k == 4 {
        Token::Else
    } else if k == 5 {
        Token::Zero
    } else if k == 6 {
        Token::Succ
    } else if k == 7 {
        Token::Pred
    } else {
        Token::IsZero
    }
}

fn holds_at(s: &Vec<char>, i: usize, w: &Vec<char>) -> (r: bool)
    requires
        i <= s@.len(),
    ensures
        r == starts_with(s@, i as int, w@),
{
    let sl = s.len();
    if w.len() > sl - i {
        return false;
    }
    let mut k: usize = 0;
    while k < w.len()
        invariant
            sl == s@.len(),
            i + w@.len() <= s@.len(),
            k <= w@.len(),
            forall|m: int| 0 <= m < k ==> s@[i + m] == w@[m],
        decreases w@.len() - k,
    {
        if s[i + k] != w[k] {
            assert(s@.subrange(i as int, i + w@.len())[k as int] != w@[k as int]);
            return false;
        }
        k += 1;
    }
    assert(s@.subrange(i as int, i + w@.len()) =~= w@);
    true
}

fn get_leading_token(s: &Vec<char>, i: usize) -> (r: Option<(usize, Token)>)
    requires
        i <= s@.len(),
    ensures
        r matches Some((len, t)) ==> keyword_from(s@, i as int, 0) == Some((t, len as int)) && 1
            <= len <= s@.len() - i,
        r is None ==> keyword_from(s@, i as int, 0) is None,
{
    let mut k: usize = 0;
    while k < 9
        invariant
            k <= 9,
            i <= s@.len(),
            keyword_from(s@, i as int, 0) == keyword_from(s@, i as int, k as int),
        decreases 9 - k,
    {
        let w = keyword_chars(k);
        assert(keyword(k as int).len() >= 1);
        if holds_at(s, i, &w) {
            return Some((w.len(), keyword_token_of(k)));
        }
        k += 1;
    }
    None
}

/// The characters of `src`.
fn chars_of(src: &str) -> (r: Vec<char>)
    ensures
        r@ == src@,
{
    let n = src.unicode_len();
    let mut out: Vec<char> = Vec::new();
    let mut i: usize = 0;
    while i < n
        invariant
            n == src@.len(),
            i <= n,
            out@ == src@.take(i as int),
        decreases n - i,
    {
        out.push(src.get_char(i));
        assert(src@.take(i + 1) =~= src@.take(i as int).push(src@[i as int]));
        i += 1;
    }
    assert(src@.take(n as int) =~= src@);
    out
}

fn is_skipped(c: char) -> (r: bool)
    ensures
        r == skipped(c),
{
    let u = c as u32;
    c == '(' || c == ')' || (0x09 <= u && u <= 0x0d) || u == 0x20 || u == 0x85 || u == 0xa0 || u
        == 0x1680 || (0x2000 <= u && u <= 0x200a) || u == 0x2028 || u == 0x2029 || u == 0x202f || u
        == 0x205f || u == 0x3000
}

/// Splits `src` into keywords, skipping whitespace and parentheses.
pub fn tokenize(src: &str) -> (r: Option<Vec<Token>>)
    ensures
        match lex4(src@, 0) {
            Some(ts) => r matches Some(v) && v@ == ts,
            None => r is None,
        },
{
    let s = chars_of(src);
    let n = s.len();
    let mut out: Vec<Token> = Vec::new();
    let mut i: usize = 0;
    while i < n
        invariant
            n == s@.len(),
            s@ == src@,
            i <= n,
            lex4(s@, 0) == match lex4(s@, i as int) {
                Some(rest) => Some(out@ + rest),
                None => None::<Seq<Token>>,
            },
        decreases n - i,
    {
        if is_skipped(s[i]) {
            i += 1;
        } else if let Some((len, token)) = get_leading_token(&s, i) {
            let ghost before = out@;
            out.push(token);
            proof {
                match lex4(s@, i + len) {
                    Some(rest) => {
                        assert(before + (seq![token] + rest) =~= out@ + rest);
                    },
                    None => {},
                }
            }
            i += len;
        } else {
            return None;
        }
    }
    assert(out@ + Seq::<Token>::empty() =~= out@);
    Some(out)
}

} // verus!
