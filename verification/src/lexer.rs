//! The lexer: declaration text in, tokens out.
//!
//! Identifiers, numeric literals, quoted string literals and lifetimes are
//! multi-character runs; `->`, `=>` and `::` are two-character tokens; any
//! other character is one token by itself.

use vstd::prelude::*;

verus! {

use vstd::string::StrSliceExecFns;
use crate::tok::{lemma_toks_push, toks, Tok, TokM};

/// Why the lexer refused its input.
#[derive(Debug)]
pub enum LexError {
    /// A string literal ran to the end of the text without a closing quote.
    UnterminatedString,
    /// A tick with no identifier after it.
    EmptyLifetime,
}

/// Whitespace between tokens.
pub open spec fn is_ws(c: char) -> bool {
    c == ' ' || c == '\n' || c == '\t' || c == '\r'
}

/// A character that may start an identifier.
pub open spec fn is_ident_start(c: char) -> bool {
    ('a' <= c && c <= 'z') || ('A' <= c && c <= 'Z') || c == '_'
}

/// A decimal digit.
pub open spec fn is_digit(c: char) -> bool {
    '0' <= c && c <= '9'
}

/// A character that may continue an identifier.
pub open spec fn is_ident_char(c: char) -> bool {
    is_ident_start(c) || is_digit(c)
}

/// The end of the identifier run beginning at `i`.
pub open spec fn ident_end(s: Seq<char>, i: int) -> int
    decreases s.len() - i,
{
    if 0 <= i && i < s.len() && is_ident_char(s[i]) {
        ident_end(s, i + 1)
    } else {
        i
    }
}

/// The identifier run stays within the text.
pub proof fn lemma_ident_end_bounds(s: Seq<char>, i: int)
    requires
        0 <= i <= s.len(),
    ensures
        i <= ident_end(s, i) <= s.len(),
    decreases s.len() - i,
{
    if i < s.len() && is_ident_char(s[i]) {
        lemma_ident_end_bounds(s, i + 1);
    }
}

/// The end of the digit run beginning at `i`.
pub open spec fn digits_end(s: Seq<char>, i: int) -> int
    decreases s.len() - i,
{
    if 0 <= i && i < s.len() && is_digit(s[i]) {
        digits_end(s, i + 1)
    } else {
        i
    }
}

/// The digit run stays within the text.
pub proof fn lemma_digits_end_bounds(s: Seq<char>, i: int)
    requires
        0 <= i <= s.len(),
    ensures
        i <= digits_end(s, i) <= s.len(),
    decreases s.len() - i,
{
    if i < s.len() && is_digit(s[i]) {
        lemma_digits_end_bounds(s, i + 1);
    }
}

/// The end of a numeric literal beginning at `i`: a digit run, optionally
/// followed by a point and a second digit run.
pub open spec fn number_end(s: Seq<char>, i: int) -> int {
    let k = digits_end(s, i);
    if k < s.len() && s[k] == '.' && k + 1 < s.len() && is_digit(s[k + 1]) {
        digits_end(s, k + 1)
    } else {
        k
    }
}

/// The position just after the closing quote of the string literal whose
/// opening quote stands before `i`, or a negative value when the text ends
/// without one.
pub open spec fn string_end(s: Seq<char>, i: int) -> int
    decreases s.len() - i,
{
    if i < 0 || i >= s.len() {
        -1
    } else if s[i] == '"' {
        i + 1
    } else {
        string_end(s, i + 1)
    }
}

/// A terminated string literal ends after its opening position, within the
/// text.
pub proof fn lemma_string_end_bounds(s: Seq<char>, i: int)
    requires
        0 <= i <= s.len(),
    ensures
        string_end(s, i) == -1 || (i < string_end(s, i) <= s.len()),
    decreases s.len() - i,
{
    if 0 <= i && i < s.len() && s[i] != '"' {
        lemma_string_end_bounds(s, i + 1);
    }
}

/// The token a single punctuation character makes.
pub open spec fn single_tok(c: char) -> TokM {
    if c == '(' {
        TokM::LParen
    } else if c == ')' {
        TokM::RParen
    } else if c == '{' {
        TokM::LBrace
    } else if c == '}' {
        TokM::RBrace
    } else if c == '[' {
        TokM::LBracket
    } else if c == ']' {
        TokM::RBracket
    } else if c == '<' {
        TokM::Lt
    } else if c == '>' {
        TokM::Gt
    } else if c == ',' {
        TokM::Comma
    } else if c == ':' {
        TokM::Colon
    } else if c == ';' {
        TokM::Semi
    } else {
        TokM::Punct(c)
    }
}

/// The scan behind `tokenize`: one token recognized per step, `None` on a
/// malformed literal.
pub open spec fn lex_scan(s: Seq<char>, i: int, acc: Seq<TokM>) -> Option<Seq<TokM>>
    decreases s.len() - i,
    when 0 <= i
    via lex_scan_dec
{
    if i >= s.len() {
        Some(acc)
    } else {
        let c = s[i];
        if is_ws(c) {
            lex_scan(s, i + 1, acc)
        } else if is_ident_start(c) {
            let j = ident_end(s, i + 1);
            lex_scan(s, j, acc.push(TokM::Id(s.subrange(i, j))))
        } else if is_digit(c) {
            let j = number_end(s, i + 1);
            lex_scan(s, j, acc.push(TokM::Lit(s.subrange(i, j))))
        } else if c == '"' {
            let j = string_end(s, i + 1);
            if j < 0 {
                None
            } else {
                lex_scan(s, j, acc.push(TokM::Lit(s.subrange(i, j))))
            }
        } else if c == '\'' {
            let j = ident_end(s, i + 1);
            if j == i + 1 {
                None
            } else {
                lex_scan(s, j, acc.push(TokM::Lifetime(s.subrange(i + 1, j))))
            }
        } else if c == '-' && i + 1 < s.len() && s[i + 1] == '>' {
            lex_scan(s, i + 2, acc.push(TokM::Arrow))
        } else if c == '=' && i + 1 < s.len() && s[i + 1] == '>' {
            lex_scan(s, i + 2, acc.push(TokM::FatArrow))
        } else if c == ':' && i + 1 < s.len() && s[i + 1] == ':' {
            lex_scan(s, i + 2, acc.push(TokM::PathSep))
        } else {
            lex_scan(s, i + 1, acc.push(single_tok(c)))
        }
    }
}

#[via_fn]
proof fn lex_scan_dec(s: Seq<char>, i: int, acc: Seq<TokM>) {
    if 0 <= i && i < s.len() {
        lemma_ident_end_bounds(s, i + 1);
        lemma_digits_end_bounds(s, i + 1);
        let k = digits_end(s, i + 1);
        if k < s.len() && s[k] == '.' && k + 1 < s.len() && is_digit(s[k + 1]) {
            lemma_digits_end_bounds(s, k + 1);
        }
        lemma_string_end_bounds(s, i + 1);
    }
}

/// What tokenizing the whole text yields.
pub open spec fn lex_spec(s: Seq<char>) -> Option<Seq<TokM>> {
    lex_scan(s, 0, Seq::empty())
}

fn ws_char(c: char) -> (r: bool)
    ensures
        r == is_ws(c),
{
    c == ' ' || c == '\n' || c == '\t' || c == '\r'
}

fn ident_start_char(c: char) -> (r: bool)
    ensures
        r == is_ident_start(c),
{
    ('a' <= c && c <= 'z') || ('A' <= c && c <= 'Z') || c == '_'
}

fn digit_char(c: char) -> (r: bool)
    ensures
        r == is_digit(c),
{
    '0' <= c && c <= '9'
}

fn ident_char(c: char) -> (r: bool)
    ensures
        r == is_ident_char(c),
{
    ident_start_char(c) || digit_char(c)
}

/// Scans to the end of the identifier run beginning at `i`.
fn scan_ident_end(src: &str, n: usize, i: usize) -> (r: usize)
    requires
        n == src@.len(),
        i <= n,
    ensures
        r == ident_end(src@, i as int),
        i <= r <= n,
{
    let ghost s = src@;
    let mut j: usize = i;
    while j < n && ident_char(src.get_char(j))
        invariant
            i <= j <= n,
            n == s.len(),
            s == src@,
            ident_end(s, i as int) == ident_end(s, j as int),
        decreases n - j,
    {
        j += 1;
    }
    j
}

/// Scans to the end of the digit run beginning at `i`.
fn scan_digits_end(src: &str, n: usize, i: usize) -> (r: usize)
    requires
        n == src@.len(),
        i <= n,
    ensures
        r == digits_end(src@, i as int),
        i <= r <= n,
{
    let ghost s = src@;
    let mut j: usize = i;
    while j < n && digit_char(src.get_char(j))
        invariant
            i <= j <= n,
            n == s.len(),
            s == src@,
            digits_end(s, i as int) == digits_end(s, j as int),
        decreases n - j,
    {
        j += 1;
    }
    j
}

/// Turns declaration text into tokens, or reports the malformed literal
/// that stopped the scan.
pub fn tokenize(src: &str) -> (r: Result<Vec<Tok>, LexError>)
    ensures
        match r {
            Ok(ts) => lex_spec(src@) == Some(toks(ts@)),
            Err(_) => lex_spec(src@) is None,
        },
{
    let ghost s = src@;
    let n = src.unicode_len();
    let mut out: Vec<Tok> = Vec::new();
    proof {
        assert(toks(out@) =~= Seq::<TokM>::empty());
    }
    let mut i: usize = 0;
    while i < n
        invariant
            i <= n,
            n == s.len(),
            s == src@,
            lex_spec(s) == lex_scan(s, i as int, toks(out@)),
        decreases n - i,
    {
        let c = src.get_char(i);
        if ws_char(c) {
            i += 1;
        } else if ident_start_char(c) {
            let j = scan_ident_end(src, n, i + 1);
            let text = src.substring_char(i, j).to_owned();
            let t = Tok::Id(text);
            proof {
                lemma_toks_push(out@, t);
            }
            out.push(t);
            i = j;
        } else if digit_char(c) {
            let k = scan_digits_end(src, n, i + 1);
            let j: usize;
            if k < n && src.get_char(k) == '.' && k + 1 < n && digit_char(src.get_char(k + 1)) {
                j = scan_digits_end(src, n, k + 1);
            } else {
                j = k;
            }
            proof {
                assert(j == number_end(s, i + 1));
            }
            let text = src.substring_char(i, j).to_owned();
            let t = Tok::Lit(text);
            proof {
                lemma_toks_push(out@, t);
            }
            out.push(t);
            i = j;
        } else if c == '"' {
            let mut j: usize = i + 1;
            let mut closed = false;
            while j < n && !closed
                invariant
                    i + 1 <= j <= n,
                    n == s.len(),
                    s == src@,
                    closed ==> j >= 1 && s[j - 1] == '"' && string_end(s, i + 1 as int) == j,
                    !closed ==> string_end(s, i + 1 as int) == string_end(s, j as int),
                decreases n - j,
            {
                if src.get_char(j) == '"' {
                    closed = true;
                }
                j += 1;
            }
            if !closed {
                proof {
                    assert(string_end(s, j as int) == -1);
                }
                return Err(LexError::UnterminatedString);
            }
            let text = src.substring_char(i, j).to_owned();
            let t = Tok::Lit(text);
            proof {
                lemma_toks_push(out@, t);
            }
            out.push(t);
            i = j;
        } else if c == '\'' {
            let j = scan_ident_end(src, n, i + 1);
            if j == i + 1 {
                return Err(LexError::EmptyLifetime);
            }
            let text = src.substring_char(i + 1, j).to_owned();
            let t = Tok::Lifetime(text);
            proof {
                lemma_toks_push(out@, t);
            }
            out.push(t);
            i = j;
        } else if c == '-' && i + 1 < n && src.get_char(i + 1) == '>' {
            let t = Tok::Arrow;
            proof {
                lemma_toks_push(out@, t);
            }
            out.push(t);
            i += 2;
        } else if c == '=' && i + 1 < n && src.get_char(i + 1) == '>' {
            let t = Tok::FatArrow;
            proof {
                lemma_toks_push(out@, t);
            }
            out.push(t);
            i += 2;
        } else if c == ':' && i + 1 < n && src.get_char(i + 1) == ':' {
            let t = Tok::PathSep;
            proof {
                lemma_toks_push(out@, t);
            }
            out.push(t);
            i += 2;
        } else {
            let t: Tok;
            if c == '(' {
                t = Tok::LParen;
            } else if c == ')' {
                t = Tok::RParen;
            } else if c == '{' {
                t = Tok::LBrace;
            } else if c == '}' {
                t = Tok::RBrace;
            } else if c == '[' {
                t = Tok::LBracket;
            } else if c == ']' {
                t = Tok::RBracket;
            } else if c == '<' {
                t = Tok::Lt;
            } else if c == '>' {
                t = Tok::Gt;
            } else if c == ',' {
                t = Tok::Comma;
            } else if c == ':' {
                t = Tok::Colon;
            } else if c == ';' {
                t = Tok::Semi;
            } else {
                t = Tok::Punct(c);
            }
            proof {
                assert(t@ == single_tok(c));
                lemma_toks_push(out@, t);
            }
            out.push(t);
            i += 1;
        }
    }
    Ok(out)
}

} // verus!
