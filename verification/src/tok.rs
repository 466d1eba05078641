//! The token alphabet of the declaration grammar.
//!
//! Declarations, type expressions, patterns and bodies are all sequences of
//! these tokens.  Punctuation that the grammar itself cares about (angle
//! brackets, delimiters, separators, the two arrows) gets a variant of its
//! own; everything else is carried as a plain punctuation character.

use vstd::prelude::*;

verus! {


/// One token of declaration text.
#[derive(Debug)]
pub enum Tok {
    /// An identifier or keyword, e.g. `enum`, `Circle`, `f64`.
    Id(String),
    /// A literal token, e.g. `42` or a quoted string.
    Lit(String),
    /// A lifetime, e.g. `'static` (without the leading tick).
    Lifetime(String),
    LParen,
    RParen,
    LBrace,
    RBrace,
    LBracket,
    RBracket,
    Lt,
    Gt,
    Comma,
    Colon,
    Semi,
    /// `->`
    Arrow,
    /// `=>`
    FatArrow,
    /// `::`
    PathSep,
    /// Any other single punctuation character, e.g. `&`, `*`, `#`, `.`.
    Punct(char),
}

/// The mathematical model of a token: identifier text as a character sequence.
pub enum TokM {
    Id(Seq<char>),
    Lit(Seq<char>),
    Lifetime(Seq<char>),
    LParen,
    RParen,
    LBrace,
    RBrace,
    LBracket,
    RBracket,
    Lt,
    Gt,
    Comma,
    Colon,
    Semi,
    Arrow,
    FatArrow,
    PathSep,
    Punct(char),
}

impl View for Tok {
    type V = TokM;

    open spec fn view(&self) -> TokM {
        match self {
            Tok::Id(s) => TokM::Id(s@),
            Tok::Lit(s) => TokM::Lit(s@),
            Tok::Lifetime(s) => TokM::Lifetime(s@),
            Tok::LParen => TokM::LParen,
            Tok::RParen => TokM::RParen,
            Tok::LBrace => TokM::LBrace,
            Tok::RBrace => TokM::RBrace,
            Tok::LBracket => TokM::LBracket,
            Tok::RBracket => TokM::RBracket,
            Tok::Lt => TokM::Lt,
            Tok::Gt => TokM::Gt,
            Tok::Comma => TokM::Comma,
            Tok::Colon => TokM::Colon,
            Tok::Semi => TokM::Semi,
            Tok::Arrow => TokM::Arrow,
            Tok::FatArrow => TokM::FatArrow,
            Tok::PathSep => TokM::PathSep,
            Tok::Punct(c) => TokM::Punct(*c),
        }
    }
}

impl Clone for Tok {
    fn clone(&self) -> (r: Self)
        ensures
            r@ == self@,
    {
        match self {
            Tok::Id(s) => Tok::Id(s.clone()),
            Tok::Lit(s) => Tok::Lit(s.clone()),
            Tok::Lifetime(s) => Tok::Lifetime(s.clone()),
            Tok::LParen => Tok::LParen,
            Tok::RParen => Tok::RParen,
            Tok::LBrace => Tok::LBrace,
            Tok::RBrace => Tok::RBrace,
            Tok::LBracket => Tok::LBracket,
            Tok::RBracket => Tok::RBracket,
            Tok::Lt => Tok::Lt,
            Tok::Gt => Tok::Gt,
            Tok::Comma => Tok::Comma,
            Tok::Colon => Tok::Colon,
            Tok::Semi => Tok::Semi,
            Tok::Arrow => Tok::Arrow,
            Tok::FatArrow => Tok::FatArrow,
            Tok::PathSep => Tok::PathSep,
            Tok::Punct(c) => Tok::Punct(*c),
        }
    }
}

/// Model of a token sequence.
pub open spec fn toks(v: Seq<Tok>) -> Seq<TokM> {
    v.map_values(|t: Tok| t@)
}

/// Pushing a token extends the model by its view.
pub proof fn lemma_toks_push(v: Seq<Tok>, t: Tok)
    ensures
        toks(v.push(t)) =~= toks(v).push(t@),
{
}

/// Compares two string slices by content.
pub fn str_eq(a: &str, b: &str) -> (r: bool)
    ensures
        r == (a@ == b@),
{
    let sa: String = a.to_owned();
    let sb: String = b.to_owned();
    sa == sb
}

/// Compares two tokens by their models.
pub fn tok_eq(a: &Tok, b: &Tok) -> (r: bool)
    ensures
        r == (a@ == b@),
{
    match (a, b) {
        (Tok::Id(x), Tok::Id(y)) => str_eq(x.as_str(), y.as_str()),
        (Tok::Lit(x), Tok::Lit(y)) => str_eq(x.as_str(), y.as_str()),
        (Tok::Lifetime(x), Tok::Lifetime(y)) => str_eq(x.as_str(), y.as_str()),
        (Tok::LParen, Tok::LParen) => true,
        (Tok::RParen, Tok::RParen) => true,
        (Tok::LBrace, Tok::LBrace) => true,
        (Tok::RBrace, Tok::RBrace) => true,
        (Tok::LBracket, Tok::LBracket) => true,
        (Tok::RBracket, Tok::RBracket) => true,
        (Tok::Lt, Tok::Lt) => true,
        (Tok::Gt, Tok::Gt) => true,
        (Tok::Comma, Tok::Comma) => true,
        (Tok::Colon, Tok::Colon) => true,
        (Tok::Semi, Tok::Semi) => true,
        (Tok::Arrow, Tok::Arrow) => true,
        (Tok::FatArrow, Tok::FatArrow) => true,
        (Tok::PathSep, Tok::PathSep) => true,
        (Tok::Punct(x), Tok::Punct(y)) => x == y,
        _ => false,
    }
}

/// True when the token is the identifier `kw`.
pub fn tok_is_id(t: &Tok, kw: &str) -> (r: bool)
    ensures
        r == (t@ == TokM::Id(kw@)),
{
    match t {
        Tok::Id(s) => str_eq(s.as_str(), kw),
        _ => false,
    }
}

/// True when the two token lists have the same model.
pub fn toks_equal(a: &Vec<Tok>, b: &Vec<Tok>) -> (r: bool)
    ensures
        r == (toks(a@) == toks(b@)),
{
    if a.len() != b.len() {
        proof {
            assert(toks(a@).len() != toks(b@).len());
        }
        return false;
    }
    let mut i: usize = 0;
    while i < a.len()
        invariant
            i <= a@.len(),
            a@.len() == b@.len(),
            forall|k: int| 0 <= k < i ==> toks(a@)[k] == toks(b@)[k],
        decreases a@.len() - i,
    {
        if !tok_eq(&a[i], &b[i]) {
            proof {
                assert(toks(a@)[i as int] != toks(b@)[i as int]);
            }
            return false;
        }
        i += 1;
    }
    proof {
        assert(toks(a@) =~= toks(b@));
    }
    true
}

} // verus!
