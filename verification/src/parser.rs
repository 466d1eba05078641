//! The declaration parser for the indexed (GADT-style) union syntax:
//!
//! ```text
//! pub enum Name<Params> {
//!     VariantA : Type1 -> Type2 -> Name<Args>,
//!     VariantB<Local> : Type -> Name<Args>,
//! }
//! ```
//!
//! Every executable parsing function mirrors a specification function over
//! token models; the specification functions are the grammar.  The scans
//! balance nested angle brackets and delimiters, so commas and arrows inside
//! a refinement's argument list are never mistaken for separators.

use vstd::prelude::*;

verus! {

use crate::tok::{lemma_toks_push, tok_is_id, toks, Tok, TokM};
use crate::ast::{
    lemma_params_push,
    lemma_tys_push,
    params_model,
    sub_toks,
    tys_model,
    GenericsDecl,
    TypeParam,
    TypeParamM,
};
use crate::helpers::{lemma_names_push, names_model};
use crate::types::{lemma_variants_push, variants_model, GadtEnum, GadtEnumM, VariantDef, VariantDefM};

/// What a parse error expected to find.
#[derive(Debug)]
pub enum Expected {
    /// The leading keyword of the declaration form.
    Keyword,
    /// An identifier.
    Name,
    /// The colon before a variant's constructor type.
    Colon,
    /// A comma or closing delimiter between items.
    Separator,
    /// An opening delimiter.
    OpenDelim,
    /// A closing delimiter.
    CloseDelim,
    /// The arrow of a pattern arm.
    Arm,
    /// The end of the declaration.
    End,
}

/// A structured parse error: what was expected, and where.
#[derive(Debug)]
pub struct ParseError {
    /// The token position the parser stopped at.
    pub pos: usize,
    /// What it expected there.
    pub expected: Expected,
}

/// The position just after the parenthesis closing `depth` open ones, or a
/// negative value when the text ends first.
pub open spec fn paren_end(s: Seq<TokM>, i: int, depth: int) -> int
    decreases s.len() - i,
{
    if i < 0 || i >= s.len() {
        -1
    } else if s[i] == TokM::LParen {
        paren_end(s, i + 1, depth + 1)
    } else if s[i] == TokM::RParen {
        if depth <= 1 {
            i + 1
        } else {
            paren_end(s, i + 1, depth - 1)
        }
    } else {
        paren_end(s, i + 1, depth)
    }
}

/// A found closing parenthesis lies within the text, after the start.
pub proof fn lemma_paren_end_bounds(s: Seq<TokM>, i: int, depth: int)
    requires
        0 <= i <= s.len(),
    ensures
        paren_end(s, i, depth) == -1 || i < paren_end(s, i, depth) <= s.len(),
    decreases s.len() - i,
{
    if 0 <= i && i < s.len() {
        lemma_paren_end_bounds(s, i + 1, depth + 1);
        lemma_paren_end_bounds(s, i + 1, depth - 1);
        lemma_paren_end_bounds(s, i + 1, depth);
    }
}

/// The end of the visibility tokens starting at `i`: past `pub` and its
/// optional parenthesized argument, or `i` itself when no visibility was
/// written; negative when `pub(` is never closed.
pub open spec fn vis_end(s: Seq<TokM>, i: int) -> int {
    if 0 <= i < s.len() && s[i] == TokM::Id("pub"@) {
        if i + 1 < s.len() && s[i + 1] == TokM::LParen {
            paren_end(s, i + 2, 1)
        } else {
            i + 1
        }
    } else {
        i
    }
}

/// The end of one parameter bound: the first comma or closing angle bracket
/// outside nested angle brackets; negative when the list is never closed.
pub open spec fn bound_end(s: Seq<TokM>, i: int, depth: int) -> int
    decreases s.len() - i,
{
    if i < 0 || i >= s.len() {
        -1
    } else if depth <= 0 && (s[i] == TokM::Comma || s[i] == TokM::Gt) {
        i
    } else if s[i] == TokM::Lt {
        bound_end(s, i + 1, depth + 1)
    } else if s[i] == TokM::Gt {
        bound_end(s, i + 1, depth - 1)
    } else {
        bound_end(s, i + 1, depth)
    }
}

/// A found bound end lies within the text.
pub proof fn lemma_bound_end_bounds(s: Seq<TokM>, i: int, depth: int)
    requires
        0 <= i <= s.len(),
    ensures
        bound_end(s, i, depth) == -1 || i <= bound_end(s, i, depth) < s.len(),
    decreases s.len() - i,
{
    if 0 <= i && i < s.len() {
        lemma_bound_end_bounds(s, i + 1, depth + 1);
        lemma_bound_end_bounds(s, i + 1, depth - 1);
        lemma_bound_end_bounds(s, i + 1, depth);
    }
}

/// The parameter list between angle brackets: each parameter an identifier
/// with an optional bound after a colon, separated by commas, closed by `>`.
pub open spec fn p_params(s: Seq<TokM>, i: int, acc: Seq<TypeParamM>) -> Option<
    (Seq<TypeParamM>, int),
>
    decreases s.len() - i,
    when 0 <= i
    via p_params_dec
{
    if i >= s.len() {
        None
    } else if s[i] == TokM::Gt {
        Some((acc, i + 1))
    } else {
        match s[i] {
            TokM::Id(name) => {
                if i + 1 < s.len() && s[i + 1] == TokM::Colon {
                    let j = bound_end(s, i + 2, 0);
                    if j < 0 {
                        None
                    } else {
                        let p = TypeParamM { name, bounds: s.subrange(i + 2, j) };
                        if s[j] == TokM::Comma {
                            p_params(s, j + 1, acc.push(p))
                        } else {
                            Some((acc.push(p), j + 1))
                        }
                    }
                } else {
                    let p = TypeParamM { name, bounds: Seq::empty() };
                    if i + 1 < s.len() && s[i + 1] == TokM::Comma {
                        p_params(s, i + 2, acc.push(p))
                    } else if i + 1 < s.len() && s[i + 1] == TokM::Gt {
                        Some((acc.push(p), i + 2))
                    } else {
                        None
                    }
                }
            },
            _ => None,
        }
    }
}

#[via_fn]
proof fn p_params_dec(s: Seq<TokM>, i: int, acc: Seq<TypeParamM>) {
    if 0 <= i && i + 2 <= s.len() {
        lemma_bound_end_bounds(s, i + 2, 0);
    }
}

/// A parsed parameter list ends after its opening position, within the text.
pub proof fn lemma_p_params_bounds(s: Seq<TokM>, i: int, acc: Seq<TypeParamM>)
    requires
        0 <= i <= s.len(),
    ensures
        p_params(s, i, acc) matches Some((_, j)) ==> i < j <= s.len(),
    decreases s.len() - i,
{
    if i < s.len() {
        match s[i] {
            TokM::Id(name) => {
                if i + 1 < s.len() && s[i + 1] == TokM::Colon {
                    lemma_bound_end_bounds(s, i + 2, 0);
                    let j = bound_end(s, i + 2, 0);
                    if j >= 0 && s[j] == TokM::Comma {
                        let p = TypeParamM { name, bounds: s.subrange(i + 2, j) };
                        lemma_p_params_bounds(s, j + 1, acc.push(p));
                    }
                } else if i + 1 < s.len() && s[i + 1] == TokM::Comma {
                    let p = TypeParamM { name, bounds: Seq::empty() };
                    lemma_p_params_bounds(s, i + 2, acc.push(p));
                }
            },
            _ => {},
        }
    }
}

/// A generics clause: absent, or a bracketed parameter list.
pub open spec fn p_generics(s: Seq<TokM>, i: int) -> Option<(Seq<TypeParamM>, int)> {
    if 0 <= i < s.len() && s[i] == TokM::Lt {
        p_params(s, i + 1, Seq::empty())
    } else {
        Some((Seq::empty(), i))
    }
}

/// A parsed generics clause never moves backwards and stays within the text.
pub proof fn lemma_p_generics_bounds(s: Seq<TokM>, i: int)
    requires
        0 <= i <= s.len(),
    ensures
        p_generics(s, i) matches Some((_, j)) ==> i <= j <= s.len(),
{
    if 0 <= i < s.len() && s[i] == TokM::Lt {
        lemma_p_params_bounds(s, i + 1, Seq::empty());
    }
}

/// The variant-local parameter list of the indexed syntax: bare identifiers
/// separated by commas, closed by `>`.
pub open spec fn p_ident_list(s: Seq<TokM>, i: int, acc: Seq<Seq<char>>) -> Option<
    (Seq<Seq<char>>, int),
>
    decreases s.len() - i,
{
    if i < 0 || i >= s.len() {
        None
    } else {
        match s[i] {
            TokM::Id(name) => {
                if i + 1 < s.len() && s[i + 1] == TokM::Comma {
                    p_ident_list(s, i + 2, acc.push(name))
                } else if i + 1 < s.len() && s[i + 1] == TokM::Gt {
                    Some((acc.push(name), i + 2))
                } else {
                    None
                }
            },
            _ => None,
        }
    }
}

/// A parsed identifier list ends after its opening position, within the text.
pub proof fn lemma_p_ident_list_bounds(s: Seq<TokM>, i: int, acc: Seq<Seq<char>>)
    requires
        0 <= i <= s.len(),
    ensures
        p_ident_list(s, i, acc) matches Some((_, j)) ==> i < j <= s.len(),
    decreases s.len() - i,
{
    if 0 <= i && i < s.len() {
        match s[i] {
            TokM::Id(name) => {
                if i + 1 < s.len() && s[i + 1] == TokM::Comma {
                    lemma_p_ident_list_bounds(s, i + 2, acc.push(name));
                }
            },
            _ => {},
        }
    }
}

/// The scan over a variant's constructor type: segments separated by `->`
/// outside all brackets, ending before a top-level comma or closing brace.
/// Returns the parameter segments, the final segment (the refinement type),
/// and the stop position.
pub open spec fn p_segments(
    s: Seq<TokM>,
    i: int,
    da: int,
    dd: int,
    cur: Seq<TokM>,
    params: Seq<Seq<TokM>>,
) -> (Seq<Seq<TokM>>, Seq<TokM>, int)
    decreases s.len() - i,
{
    if i < 0 || i >= s.len() {
        (params, cur, i)
    } else if da == 0 && dd == 0 && (s[i] == TokM::Comma || s[i] == TokM::RBrace) {
        (params, cur, i)
    } else if da == 0 && dd == 0 && s[i] == TokM::Arrow {
        p_segments(
            s,
            i + 1,
            0,
            0,
            Seq::empty(),
            if cur.len() > 0 {
                params.push(cur)
            } else {
                params
            },
        )
    } else if s[i] == TokM::Lt {
        p_segments(s, i + 1, da + 1, dd, cur.push(s[i]), params)
    } else if s[i] == TokM::Gt {
        p_segments(
            s,
            i + 1,
            if da > 0 {
                da - 1
            } else {
                0
            },
            dd,
            cur.push(s[i]),
            params,
        )
    } else if s[i] == TokM::LParen || s[i] == TokM::LBracket || s[i] == TokM::LBrace {
        p_segments(s, i + 1, da, dd + 1, cur.push(s[i]), params)
    } else if s[i] == TokM::RParen || s[i] == TokM::RBracket || s[i] == TokM::RBrace {
        p_segments(
            s,
            i + 1,
            da,
            if dd > 0 {
                dd - 1
            } else {
                0
            },
            cur.push(s[i]),
            params,
        )
    } else {
        p_segments(s, i + 1, da, dd, cur.push(s[i]), params)
    }
}

/// The segment scan never moves backwards and stays within the text.
pub proof fn lemma_p_segments_bounds(
    s: Seq<TokM>,
    i: int,
    da: int,
    dd: int,
    cur: Seq<TokM>,
    params: Seq<Seq<TokM>>,
)
    requires
        0 <= i <= s.len(),
    ensures
        i <= p_segments(s, i, da, dd, cur, params).2 <= s.len(),
    decreases s.len() - i,
{
    if 0 <= i && i < s.len() {
        if da == 0 && dd == 0 && (s[i] == TokM::Comma || s[i] == TokM::RBrace) {
        } else if da == 0 && dd == 0 && s[i] == TokM::Arrow {
            lemma_p_segments_bounds(
                s,
                i + 1,
                0,
                0,
                Seq::empty(),
                if cur.len() > 0 {
                    params.push(cur)
                } else {
                    params
                },
            )
        } else if s[i] == TokM::Lt {
            lemma_p_segments_bounds(s, i + 1, da + 1, dd, cur.push(s[i]), params)
        } else if s[i] == TokM::Gt {
            lemma_p_segments_bounds(
                s,
                i + 1,
                if da > 0 {
                    da - 1
                } else {
                    0
                },
                dd,
                cur.push(s[i]),
                params,
            )
        } else if s[i] == TokM::LParen || s[i] == TokM::LBracket || s[i] == TokM::LBrace {
            lemma_p_segments_bounds(s, i + 1, da, dd + 1, cur.push(s[i]), params)
        } else if s[i] == TokM::RParen || s[i] == TokM::RBracket || s[i] == TokM::RBrace {
            lemma_p_segments_bounds(
                s,
                i + 1,
                da,
                if dd > 0 {
                    dd - 1
                } else {
                    0
                },
                cur.push(s[i]),
                params,
            )
        } else {
            lemma_p_segments_bounds(s, i + 1, da, dd, cur.push(s[i]), params)
        }
    }
}

/// One variant of the indexed syntax: a name, an optional local parameter
/// list, a colon, and arrow-separated constructor types ending in the
/// refinement type.
pub open spec fn p_gvariant(s: Seq<TokM>, i: int) -> Option<(VariantDefM, int)> {
    if !(0 <= i < s.len()) {
        None
    } else {
        match s[i] {
            TokM::Id(name) => {
                let gens_j: Option<(Seq<Seq<char>>, int)> = if i + 1 < s.len() && s[i + 1]
                    == TokM::Lt {
                    p_ident_list(s, i + 2, Seq::empty())
                } else {
                    Some((Seq::empty(), i + 1))
                };
                match gens_j {
                    Some((gens, j)) => {
                        if j < s.len() && s[j] == TokM::Colon {
                            let (params, ret, end) = p_segments(
                                s,
                                j + 1,
                                0,
                                0,
                                Seq::empty(),
                                Seq::empty(),
                            );
                            Some(
                                (
                                    VariantDefM {
                                        name,
                                        variant_generics: gens,
                                        param_types: params,
                                        return_type: ret,
                                    },
                                    end,
                                ),
                            )
                        } else {
                            None
                        }
                    },
                    None => None,
                }
            },
            _ => None,
        }
    }
}

/// A parsed variant ends after its opening position, within the text.
pub proof fn lemma_p_gvariant_bounds(s: Seq<TokM>, i: int)
    requires
        0 <= i <= s.len(),
    ensures
        p_gvariant(s, i) matches Some((_, j)) ==> i < j <= s.len(),
{
    if 0 <= i < s.len() {
        if i + 1 < s.len() && s[i + 1] == TokM::Lt {
            lemma_p_ident_list_bounds(s, i + 2, Seq::empty());
        }
        match p_gvariant(s, i) {
            Some(_) => {
                match s[i] {
                    TokM::Id(_) => {
                        let gens_j: Option<(Seq<Seq<char>>, int)> = if i + 1 < s.len() && s[i + 1]
                            == TokM::Lt {
                            p_ident_list(s, i + 2, Seq::empty())
                        } else {
                            Some((Seq::empty(), i + 1))
                        };
                        match gens_j {
                            Some((_, j)) => {
                                lemma_p_segments_bounds(
                                    s,
                                    j + 1,
                                    0,
                                    0,
                                    Seq::empty(),
                                    Seq::empty(),
                                );
                            },
                            None => {},
                        }
                    },
                    _ => {},
                }
            },
            None => {},
        }
    }
}

/// The variant list of the indexed syntax, ending at the closing brace.
pub open spec fn p_gvariants(s: Seq<TokM>, i: int, acc: Seq<VariantDefM>) -> Option<
    (Seq<VariantDefM>, int),
>
    decreases s.len() - i,
    when 0 <= i
    via p_gvariants_dec
{
    if i >= s.len() {
        None
    } else if s[i] == TokM::RBrace {
        Some((acc, i + 1))
    } else {
        match p_gvariant(s, i) {
            Some((v, j)) => {
                if j < s.len() && s[j] == TokM::Comma {
                    p_gvariants(s, j + 1, acc.push(v))
                } else if j < s.len() && s[j] == TokM::RBrace {
                    Some((acc.push(v), j + 1))
                } else {
                    None
                }
            },
            None => None,
        }
    }
}

#[via_fn]
proof fn p_gvariants_dec(s: Seq<TokM>, i: int, acc: Seq<VariantDefM>) {
    if 0 <= i && i < s.len() {
        lemma_p_gvariant_bounds(s, i);
    }
}

/// The whole indexed union declaration: visibility, the `enum` keyword, the
/// union's name and parameters, and the braced variant list, consuming the
/// whole text.
pub open spec fn p_gadt(s: Seq<TokM>) -> Option<GadtEnumM> {
    let ve = vis_end(s, 0);
    if ve < 0 || ve >= s.len() || s[ve] != TokM::Id("enum"@) {
        None
    } else {
        if !(ve + 1 < s.len()) {
            None
        } else {
            match s[ve + 1] {
                TokM::Id(name) => {
                    match p_generics(s, ve + 2) {
                        Some((gens, gi)) => {
                            if gi < s.len() && s[gi] == TokM::LBrace {
                                match p_gvariants(s, gi + 1, Seq::empty()) {
                                    Some((vars, end)) => {
                                        if end == s.len() {
                                            Some(
                                                GadtEnumM {
                                                    vis: s.subrange(0, ve),
                                                    name,
                                                    enum_generics: gens,
                                                    variants: vars,
                                                },
                                            )
                                        } else {
                                            None
                                        }
                                    },
                                    None => None,
                                }
                            } else {
                                None
                            }
                        },
                        None => None,
                    }
                },
                _ => None,
            }
        }
    }
}

/// Scans past the parenthesis closing `depth` open ones.
pub(crate) fn scan_paren_end(ts: &Vec<Tok>, i: usize, depth: usize) -> (r: Option<usize>)
    requires
        i <= ts@.len(),
        1 <= depth <= i,
    ensures
        match r {
            Some(j) => paren_end(toks(ts@), i as int, depth as int) == j as int && i < j
                <= ts@.len(),
            None => paren_end(toks(ts@), i as int, depth as int) == -1,
        },
{
    let ghost s = toks(ts@);
    let mut j = i;
    let mut d = depth;
    while j < ts.len()
        invariant
            i <= j <= ts@.len(),
            1 <= d <= j,
            s == toks(ts@),
            paren_end(s, i as int, depth as int) == paren_end(s, j as int, d as int),
        decreases ts@.len() - j,
    {
        match &ts[j] {
            Tok::LParen => {
                d += 1;
            },
            Tok::RParen => {
                if d == 1 {
                    return Some(j + 1);
                }
                d -= 1;
            },
            _ => {},
        }
        j += 1;
    }
    None
}

/// Reads the visibility tokens at `i`: `pub`, `pub(...)`, or nothing.
pub fn parse_visibility(ts: &Vec<Tok>, i: usize) -> (r: Result<(Vec<Tok>, usize), ParseError>)
    requires
        i <= ts@.len(),
    ensures
        match r {
            Ok((vis, j)) => vis_end(toks(ts@), i as int) == j as int && i <= j <= ts@.len()
                && toks(vis@) == toks(ts@).subrange(i as int, j as int),
            Err(_) => vis_end(toks(ts@), i as int) < 0,
        },
{
    let ghost s = toks(ts@);
    if i < ts.len() && tok_is_id(&ts[i], "pub") {
        if i + 1 < ts.len() && matches!(&ts[i + 1], Tok::LParen) {
            match scan_paren_end(ts, i + 2, 1) {
                Some(j) => Ok((sub_toks(ts, i, j), j)),
                None => Err(ParseError { pos: i + 1, expected: Expected::CloseDelim }),
            }
        } else {
            Ok((sub_toks(ts, i, i + 1), i + 1))
        }
    } else {
        Ok((Vec::new(), i))
    }
}

/// Scans to the end of one parameter bound: the first comma or closing
/// angle bracket outside nested angle brackets.
fn scan_bound_end(ts: &Vec<Tok>, i: usize) -> (r: Option<usize>)
    requires
        i <= ts@.len(),
    ensures
        match r {
            Some(j) => bound_end(toks(ts@), i as int, 0) == j as int && i <= j < ts@.len(),
            None => bound_end(toks(ts@), i as int, 0) == -1,
        },
{
    let ghost s = toks(ts@);
    let mut j = i;
    let mut d: usize = 0;
    while j < ts.len()
        invariant
            i <= j <= ts@.len(),
            d <= j,
            s == toks(ts@),
            bound_end(s, i as int, 0) == bound_end(s, j as int, d as int),
        decreases ts@.len() - j,
    {
        match &ts[j] {
            Tok::Comma => {
                if d == 0 {
                    return Some(j);
                }
            },
            Tok::Gt => {
                if d == 0 {
                    return Some(j);
                }
                d -= 1;
            },
            Tok::Lt => {
                d += 1;
            },
            _ => {},
        }
        j += 1;
    }
    None
}

/// Reads the parameter list after an opening angle bracket.
fn parse_params(ts: &Vec<Tok>, i: usize, acc: Vec<TypeParam>) -> (r: Result<
    (Vec<TypeParam>, usize),
    ParseError,
>)
    requires
        i <= ts@.len(),
    ensures
        match r {
            Ok((ps, j)) => p_params(toks(ts@), i as int, params_model(acc@)) == Some(
                (params_model(ps@), j as int),
            ) && j <= ts@.len(),
            Err(_) => p_params(toks(ts@), i as int, params_model(acc@)) is None,
        },
    decreases ts@.len() - i,
{
    let ghost s = toks(ts@);
    if i >= ts.len() {
        return Err(ParseError { pos: i, expected: Expected::CloseDelim });
    }
    match &ts[i] {
        Tok::Gt => Ok((acc, i + 1)),
        Tok::Id(name) => {
            if i + 1 < ts.len() && matches!(&ts[i + 1], Tok::Colon) {
                let j = match scan_bound_end(ts, i + 2) {
                    Some(j) => j,
                    None => {
                        return Err(ParseError { pos: i + 2, expected: Expected::CloseDelim });
                    },
                };
                let bounds = sub_toks(ts, i + 2, j);
                let p = TypeParam { name: name.clone(), bounds };
                let ghost pm = TypeParamM { name: name@, bounds: s.subrange(i + 2, j as int) };
                proof {
                    assert(p@ == pm);
                    lemma_params_push(acc@, p);
                }
                let mut acc = acc;
                acc.push(p);
                if matches!(&ts[j], Tok::Comma) {
                    parse_params(ts, j + 1, acc)
                } else {
                    Ok((acc, j + 1))
                }
            } else if i + 1 < ts.len() && matches!(&ts[i + 1], Tok::Comma) {
                let p = TypeParam { name: name.clone(), bounds: Vec::new() };
                let ghost pm = TypeParamM { name: name@, bounds: Seq::empty() };
                proof {
                    assert(toks(p.bounds@) =~= Seq::<TokM>::empty());
                    assert(p@ == pm);
                    lemma_params_push(acc@, p);
                }
                let mut acc = acc;
                acc.push(p);
                parse_params(ts, i + 2, acc)
            } else if i + 1 < ts.len() && matches!(&ts[i + 1], Tok::Gt) {
                let p = TypeParam { name: name.clone(), bounds: Vec::new() };
                let ghost pm = TypeParamM { name: name@, bounds: Seq::empty() };
                proof {
                    assert(toks(p.bounds@) =~= Seq::<TokM>::empty());
                    assert(p@ == pm);
                    lemma_params_push(acc@, p);
                }
                let mut acc = acc;
                acc.push(p);
                Ok((acc, i + 2))
            } else {
                Err(ParseError { pos: i + 1, expected: Expected::Separator })
            }
        },
        _ => Err(ParseError { pos: i, expected: Expected::Name }),
    }
}

/// Reads a generics clause: absent, or a bracketed parameter list.
pub fn parse_generics(ts: &Vec<Tok>, i: usize) -> (r: Result<(GenericsDecl, usize), ParseError>)
    requires
        i <= ts@.len(),
    ensures
        match r {
            Ok((g, j)) => p_generics(toks(ts@), i as int) == Some((g@, j as int)) && j
                <= ts@.len(),
            Err(_) => p_generics(toks(ts@), i as int) is None,
        },
{
    if i < ts.len() && matches!(&ts[i], Tok::Lt) {
        proof {
            assert(params_model(Seq::<TypeParam>::empty()) =~= Seq::<TypeParamM>::empty());
        }
        match parse_params(ts, i + 1, Vec::new()) {
            Ok((ps, j)) => Ok((GenericsDecl { params: ps }, j)),
            Err(e) => Err(e),
        }
    } else {
        Ok((GenericsDecl::empty(), i))
    }
}

/// Reads the variant-local parameter list of the indexed syntax.
fn parse_ident_list(ts: &Vec<Tok>, i: usize, acc: Vec<String>) -> (r: Result<
    (Vec<String>, usize),
    ParseError,
>)
    requires
        i <= ts@.len(),
    ensures
        match r {
            Ok((names, j)) => p_ident_list(toks(ts@), i as int, names_model(acc@)) == Some(
                (names_model(names@), j as int),
            ) && i < j <= ts@.len(),
            Err(_) => p_ident_list(toks(ts@), i as int, names_model(acc@)) is None,
        },
    decreases ts@.len() - i,
{
    if i >= ts.len() {
        return Err(ParseError { pos: i, expected: Expected::Name });
    }
    match &ts[i] {
        Tok::Id(name) => {
            if i + 1 < ts.len() && matches!(&ts[i + 1], Tok::Comma) {
                let c = name.clone();
                proof {
                    lemma_names_push(acc@, c);
                }
                let mut acc = acc;
                acc.push(c);
                parse_ident_list(ts, i + 2, acc)
            } else if i + 1 < ts.len() && matches!(&ts[i + 1], Tok::Gt) {
                let c = name.clone();
                proof {
                    lemma_names_push(acc@, c);
                }
                let mut acc = acc;
                acc.push(c);
                Ok((acc, i + 2))
            } else {
                Err(ParseError { pos: i + 1, expected: Expected::Separator })
            }
        },
        _ => Err(ParseError { pos: i, expected: Expected::Name }),
    }
}

/// Reads a variant's constructor type: segments separated by `->` outside
/// all brackets, ending before a top-level comma or closing brace.
fn parse_segments(
    ts: &Vec<Tok>,
    i: usize,
    da: usize,
    dd: usize,
    cur: Vec<Tok>,
    params: Vec<Vec<Tok>>,
) -> (r: (Vec<Vec<Tok>>, Vec<Tok>, usize))
    requires
        i <= ts@.len(),
        da <= i,
        dd <= i,
    ensures
        p_segments(toks(ts@), i as int, da as int, dd as int, toks(cur@), tys_model(params@)) == (
        tys_model(r.0@),
        toks(r.1@),
        r.2 as int,
        ),
        i <= r.2 <= ts@.len(),
    decreases ts@.len() - i,
{
    let ghost s = toks(ts@);
    if i >= ts.len() {
        return (params, cur, i);
    }
    let t = &ts[i];
    match t {
        Tok::Comma => {
            if da == 0 && dd == 0 {
                return (params, cur, i);
            }
            let mut cur = cur;
            proof {
                lemma_toks_push(cur@, Tok::Comma);
            }
            cur.push(Tok::Comma);
            parse_segments(ts, i + 1, da, dd, cur, params)
        },
        Tok::RBrace => {
            if da == 0 && dd == 0 {
                return (params, cur, i);
            }
            let mut cur = cur;
            proof {
                lemma_toks_push(cur@, Tok::RBrace);
            }
            cur.push(Tok::RBrace);
            let ndd = if dd > 0 {
                dd - 1
            } else {
                0
            };
            parse_segments(ts, i + 1, da, ndd, cur, params)
        },
        Tok::Arrow => {
            if da == 0 && dd == 0 {
                let mut params = params;
                if cur.len() > 0 {
                    proof {
                        lemma_tys_push(params@, cur);
                    }
                    params.push(cur);
                }
                let fresh: Vec<Tok> = Vec::new();
                proof {
                    assert(toks(fresh@) =~= Seq::<TokM>::empty());
                }
                return parse_segments(ts, i + 1, 0, 0, fresh, params);
            }
            let mut cur = cur;
            proof {
                lemma_toks_push(cur@, Tok::Arrow);
            }
            cur.push(Tok::Arrow);
            parse_segments(ts, i + 1, da, dd, cur, params)
        },
        Tok::Lt => {
            let mut cur = cur;
            proof {
                lemma_toks_push(cur@, Tok::Lt);
            }
            cur.push(Tok::Lt);
            parse_segments(ts, i + 1, da + 1, dd, cur, params)
        },
        Tok::Gt => {
            let mut cur = cur;
            proof {
                lemma_toks_push(cur@, Tok::Gt);
            }
            cur.push(Tok::Gt);
            let nda = if da > 0 {
                da - 1
            } else {
                0
            };
            parse_segments(ts, i + 1, nda, dd, cur, params)
        },
        Tok::LParen | Tok::LBracket | Tok::LBrace => {
            let c = t.clone();
            let mut cur = cur;
            proof {
                lemma_toks_push(cur@, c);
            }
            cur.push(c);
            parse_segments(ts, i + 1, da, dd + 1, cur, params)
        },
        Tok::RParen | Tok::RBracket => {
            let c = t.clone();
            let mut cur = cur;
            proof {
                lemma_toks_push(cur@, c);
            }
            cur.push(c);
            let ndd = if dd > 0 {
                dd - 1
            } else {
                0
            };
            parse_segments(ts, i + 1, da, ndd, cur, params)
        },
        _ => {
            let c = t.clone();
            let mut cur = cur;
            proof {
                lemma_toks_push(cur@, c);
            }
            cur.push(c);
            parse_segments(ts, i + 1, da, dd, cur, params)
        },
    }
}

/// Reads one variant of the indexed syntax: name, optional local parameter
/// list, colon, and arrow-separated constructor types.
pub fn parse_variant(ts: &Vec<Tok>, i: usize) -> (r: Result<(VariantDef, usize), ParseError>)
    requires
        i <= ts@.len(),
    ensures
        match r {
            Ok((v, j)) => p_gvariant(toks(ts@), i as int) == Some((v@, j as int)) && i < j
                <= ts@.len(),
            Err(_) => p_gvariant(toks(ts@), i as int) is None,
        },
{
    let ghost s = toks(ts@);
    if i >= ts.len() {
        return Err(ParseError { pos: i, expected: Expected::Name });
    }
    match &ts[i] {
        Tok::Id(name) => {
            let name = name.clone();
            let gens: Vec<String>;
            let j: usize;
            if i + 1 < ts.len() && matches!(&ts[i + 1], Tok::Lt) {
                proof {
                    assert(names_model(Seq::<String>::empty()) =~= Seq::<Seq<char>>::empty());
                }
                match parse_ident_list(ts, i + 2, Vec::new()) {
                    Ok((g, jj)) => {
                        gens = g;
                        j = jj;
                    },
                    Err(e) => {
                        return Err(e);
                    },
                }
            } else {
                gens = Vec::new();
                j = i + 1;
                proof {
                    assert(names_model(gens@) =~= Seq::<Seq<char>>::empty());
                }
            }
            if j < ts.len() && matches!(&ts[j], Tok::Colon) {
                proof {
                    assert(toks(Seq::<Tok>::empty()) =~= Seq::<TokM>::empty());
                    assert(tys_model(Seq::<Vec<Tok>>::empty()) =~= Seq::<Seq<TokM>>::empty());
                }
                let (params, ret, end) = parse_segments(ts, j + 1, 0, 0, Vec::new(), Vec::new());
                let v = VariantDef {
                    name,
                    variant_generics: gens,
                    param_types: params,
                    return_type: ret,
                };
                Ok((v, end))
            } else {
                Err(ParseError { pos: j, expected: Expected::Colon })
            }
        },
        _ => Err(ParseError { pos: i, expected: Expected::Name }),
    }
}

/// Reads the variant list of the indexed syntax, up to its closing brace.
fn parse_gvariants(ts: &Vec<Tok>, i: usize, acc: Vec<VariantDef>) -> (r: Result<
    (Vec<VariantDef>, usize),
    ParseError,
>)
    requires
        i <= ts@.len(),
    ensures
        match r {
            Ok((vs, j)) => p_gvariants(toks(ts@), i as int, variants_model(acc@)) == Some(
                (variants_model(vs@), j as int),
            ) && j <= ts@.len(),
            Err(_) => p_gvariants(toks(ts@), i as int, variants_model(acc@)) is None,
        },
    decreases ts@.len() - i,
{
    let ghost s = toks(ts@);
    if i >= ts.len() {
        return Err(ParseError { pos: i, expected: Expected::CloseDelim });
    }
    if matches!(&ts[i], Tok::RBrace) {
        return Ok((acc, i + 1));
    }
    match parse_variant(ts, i) {
        Ok((v, j)) => {
            proof {
                lemma_variants_push(acc@, v);
            }
            let mut acc = acc;
            acc.push(v);
            if j < ts.len() && matches!(&ts[j], Tok::Comma) {
                parse_gvariants(ts, j + 1, acc)
            } else if j < ts.len() && matches!(&ts[j], Tok::RBrace) {
                Ok((acc, j + 1))
            } else {
                Err(ParseError { pos: j, expected: Expected::Separator })
            }
        },
        Err(e) => Err(e),
    }
}

impl GadtEnum {
    /// Parses a whole indexed union declaration from its tokens.
    pub fn parse(ts: &Vec<Tok>) -> (r: Result<GadtEnum, ParseError>)
        ensures
            match r {
                Ok(g) => p_gadt(toks(ts@)) == Some(g@),
                Err(_) => p_gadt(toks(ts@)) is None,
            },
    {
        let ghost s = toks(ts@);
        let (vis, ve) = match parse_visibility(ts, 0) {
            Ok(x) => x,
            Err(e) => {
                return Err(e);
            },
        };
        if !(ve < ts.len() && tok_is_id(&ts[ve], "enum")) {
            return Err(ParseError { pos: ve, expected: Expected::Keyword });
        }
        if !(ve + 1 < ts.len()) {
            return Err(ParseError { pos: ve + 1, expected: Expected::Name });
        }
        let name = match &ts[ve + 1] {
            Tok::Id(n) => n.clone(),
            _ => {
                return Err(ParseError { pos: ve + 1, expected: Expected::Name });
            },
        };
        let (gens, gi) = match parse_generics(ts, ve + 2) {
            Ok(x) => x,
            Err(e) => {
                return Err(e);
            },
        };
        if !(gi < ts.len() && matches!(&ts[gi], Tok::LBrace)) {
            return Err(ParseError { pos: gi, expected: Expected::OpenDelim });
        }
        proof {
            assert(variants_model(Seq::<VariantDef>::empty()) =~= Seq::<VariantDefM>::empty());
        }
        let (vars, end) = match parse_gvariants(ts, gi + 1, Vec::new()) {
            Ok(x) => x,
            Err(e) => {
                return Err(e);
            },
        };
        if end != ts.len() {
            return Err(ParseError { pos: end, expected: Expected::End });
        }
        Ok(GadtEnum { vis, name, enum_generics: gens, variants: vars })
    }
}

} // verus!
