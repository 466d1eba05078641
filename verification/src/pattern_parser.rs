//! Parsing of dispatch requests: `[move] handle-expr [as TypeHint] { arms }`.

use vstd::prelude::*;

verus! {

use crate::tok::{toks, tok_is_id, Tok, TokM};
use crate::ast::sub_toks;
use crate::helpers::{stripped, strip_pattern_generics};
use crate::parser::{Expected, ParseError};
use crate::enum_parser::{
    body_end,
    lemma_body_end_bounds,
    lemma_pat_end_bounds,
    pat_end,
};

/// One arm of a dispatch request: a variant pattern and its body.
pub struct MatchArm {
    pub pattern: Vec<Tok>,
    pub body: Vec<Tok>,
}

/// Model of a dispatch arm.
pub struct MatchArmM {
    pub pattern: Seq<TokM>,
    pub body: Seq<TokM>,
}

impl View for MatchArm {
    type V = MatchArmM;

    open spec fn view(&self) -> MatchArmM {
        MatchArmM { pattern: toks(self.pattern@), body: toks(self.body@) }
    }
}

/// Model of a dispatch arm list.
pub open spec fn match_arms_model(v: Seq<MatchArm>) -> Seq<MatchArmM> {
    v.map_values(|a: MatchArm| a@)
}

/// Pushing an arm extends the model by its view.
pub proof fn lemma_match_arms_push(v: Seq<MatchArm>, a: MatchArm)
    ensures
        match_arms_model(v.push(a)) =~= match_arms_model(v).push(a@),
{
}

/// A whole dispatch request: ownership mode, handle expression, optional
/// type hint, and the ordered arm list.
pub struct MatchTInput {
    pub is_move: bool,
    pub expr: Vec<Tok>,
    pub type_hint: Option<Vec<Tok>>,
    pub arms: Vec<MatchArm>,
}

/// Model of a dispatch request.
pub struct MatchTInputM {
    pub is_move: bool,
    pub expr: Seq<TokM>,
    pub type_hint: Option<Seq<TokM>>,
    pub arms: Seq<MatchArmM>,
}

impl View for MatchTInput {
    type V = MatchTInputM;

    open spec fn view(&self) -> MatchTInputM {
        MatchTInputM {
            is_move: self.is_move,
            expr: toks(self.expr@),
            type_hint: match self.type_hint {
                Some(ts) => Some(toks(ts@)),
                None => None,
            },
            arms: match_arms_model(self.arms@),
        }
    }
}

/// The end of the handle expression: the first `as` keyword or opening
/// brace outside parentheses and brackets.
pub open spec fn expr_end(s: Seq<TokM>, i: int, dd: int) -> int
    decreases s.len() - i,
{
    if i < 0 || i >= s.len() {
        s.len() as int
    } else if dd == 0 && (s[i] == TokM::LBrace || s[i] == TokM::Id("as"@)) {
        i
    } else if s[i] == TokM::LParen || s[i] == TokM::LBracket || s[i] == TokM::LBrace {
        expr_end(s, i + 1, dd + 1)
    } else if s[i] == TokM::RParen || s[i] == TokM::RBracket || s[i] == TokM::RBrace {
        expr_end(
            s,
            i + 1,
            if dd > 0 {
                dd - 1
            } else {
                0
            },
        )
    } else {
        expr_end(s, i + 1, dd)
    }
}

/// The end of a type hint: the opening brace of the arm list, outside
/// parentheses and brackets.
pub open spec fn hint_end(s: Seq<TokM>, i: int, dd: int) -> int
    decreases s.len() - i,
{
    if i < 0 || i >= s.len() {
        s.len() as int
    } else if dd == 0 && s[i] == TokM::LBrace {
        i
    } else if s[i] == TokM::LParen || s[i] == TokM::LBracket || s[i] == TokM::LBrace {
        hint_end(s, i + 1, dd + 1)
    } else if s[i] == TokM::RParen || s[i] == TokM::RBracket || s[i] == TokM::RBrace {
        hint_end(
            s,
            i + 1,
            if dd > 0 {
                dd - 1
            } else {
                0
            },
        )
    } else {
        hint_end(s, i + 1, dd)
    }
}

/// The arm list of a dispatch request, after its opening brace.
pub open spec fn p_match_arms(s: Seq<TokM>, i: int, acc: Seq<MatchArmM>) -> Option<
    (Seq<MatchArmM>, int),
>
    decreases s.len() - i,
    when 0 <= i
    via p_match_arms_dec
{
    if !(0 <= i && i < s.len()) {
        None
    } else if s[i] == TokM::RBrace {
        Some((acc, i + 1))
    } else {
        let pe = pat_end(s, i, 0, 0);
        if !(pe < s.len() && s[pe] == TokM::FatArrow) {
            None
        } else {
            let be = body_end(s, pe + 1, 0);
            let arm = MatchArmM { pattern: s.subrange(i, pe), body: s.subrange(pe + 1, be) };
            if be < s.len() && s[be] == TokM::Comma {
                p_match_arms(s, be + 1, acc.push(arm))
            } else if be < s.len() && s[be] == TokM::RBrace {
                Some((acc.push(arm), be + 1))
            } else {
                None
            }
        }
    }
}

#[via_fn]
proof fn p_match_arms_dec(s: Seq<TokM>, i: int, acc: Seq<MatchArmM>) {
    if 0 <= i && i <= s.len() {
        lemma_pat_end_bounds(s, i, 0, 0);
        let pe = pat_end(s, i, 0, 0);
        if pe + 1 <= s.len() {
            lemma_body_end_bounds(s, pe + 1, 0);
        }
    }
}

/// A whole dispatch request: optional `move`, the handle expression, an
/// optional `as` type hint, and the braced arm list, consuming the whole
/// text.
pub open spec fn p_match_t(s: Seq<TokM>) -> Option<MatchTInputM> {
    let b: int = if s.len() > 0 && s[0] == TokM::Id("move"@) {
        1
    } else {
        0
    };
    let is_move = b == 1;
    let ee = expr_end(s, b, 0);
    if !(ee < s.len()) {
        None
    } else {
        let expr = s.subrange(b, ee);
        if s[ee] == TokM::Id("as"@) {
            let he = hint_end(s, ee + 1, 0);
            if !(he < s.len() && s[he] == TokM::LBrace) {
                None
            } else {
                match p_match_arms(s, he + 1, Seq::empty()) {
                    Some((arms, j)) => {
                        if j == s.len() {
                            Some(
                                MatchTInputM {
                                    is_move,
                                    expr,
                                    type_hint: Some(s.subrange(ee + 1, he)),
                                    arms,
                                },
                            )
                        } else {
                            None
                        }
                    },
                    None => None,
                }
            }
        } else if s[ee] == TokM::LBrace {
            match p_match_arms(s, ee + 1, Seq::empty()) {
                Some((arms, j)) => {
                    if j == s.len() {
                        Some(MatchTInputM { is_move, expr, type_hint: None, arms })
                    } else {
                        None
                    }
                },
                None => None,
            }
        } else {
            None
        }
    }
}

/// Scans to the end of the handle expression.
fn scan_expr_end(ts: &Vec<Tok>, i: usize) -> (r: usize)
    requires
        i <= ts@.len(),
    ensures
        r as int == expr_end(toks(ts@), i as int, 0),
        i <= r <= ts@.len(),
{
    let ghost s = toks(ts@);
    let mut j = i;
    let mut dd: usize = 0;
    while j < ts.len()
        invariant
            i <= j <= ts@.len(),
            dd <= j,
            s == toks(ts@),
            expr_end(s, i as int, 0) == expr_end(s, j as int, dd as int),
        decreases ts@.len() - j,
    {
        match &ts[j] {
            Tok::LBrace => {
                if dd == 0 {
                    return j;
                }
                dd += 1;
            },
            Tok::Id(name) => {
                if dd == 0 && crate::tok::str_eq(name.as_str(), "as") {
                    return j;
                }
            },
            Tok::LParen | Tok::LBracket => {
                dd += 1;
            },
            Tok::RParen | Tok::RBracket | Tok::RBrace => {
                if dd > 0 {
                    dd -= 1;
                }
            },
            _ => {},
        }
        j += 1;
    }
    ts.len()
}

/// Scans to the opening brace ending a type hint.
fn scan_hint_end(ts: &Vec<Tok>, i: usize) -> (r: usize)
    requires
        i <= ts@.len(),
    ensures
        r as int == hint_end(toks(ts@), i as int, 0),
        i <= r <= ts@.len(),
{
    let ghost s = toks(ts@);
    let mut j = i;
    let mut dd: usize = 0;
    while j < ts.len()
        invariant
            i <= j <= ts@.len(),
            dd <= j,
            s == toks(ts@),
            hint_end(s, i as int, 0) == hint_end(s, j as int, dd as int),
        decreases ts@.len() - j,
    {
        match &ts[j] {
            Tok::LBrace => {
                if dd == 0 {
                    return j;
                }
                dd += 1;
            },
            Tok::LParen | Tok::LBracket => {
                dd += 1;
            },
            Tok::RParen | Tok::RBracket | Tok::RBrace => {
                if dd > 0 {
                    dd -= 1;
                }
            },
            _ => {},
        }
        j += 1;
    }
    ts.len()
}

/// Reads the arm list of a dispatch request, after its opening brace.
fn parse_match_arms(ts: &Vec<Tok>, i: usize, acc: Vec<MatchArm>) -> (r: Result<
    (Vec<MatchArm>, usize),
    ParseError,
>)
    requires
        i <= ts@.len(),
    ensures
        match r {
            Ok((arms, j)) => p_match_arms(toks(ts@), i as int, match_arms_model(acc@)) == Some(
                (match_arms_model(arms@), j as int),
            ) && i < j <= ts@.len(),
            Err(_) => p_match_arms(toks(ts@), i as int, match_arms_model(acc@)) is None,
        },
    decreases ts@.len() - i,
{
    let ghost s = toks(ts@);
    if i >= ts.len() {
        return Err(ParseError { pos: i, expected: Expected::CloseDelim });
    }
    if matches!(&ts[i], Tok::RBrace) {
        return Ok((acc, i + 1));
    }
    let pe = crate::enum_parser::scan_pat_end(ts, i);
    if !(pe < ts.len() && matches!(&ts[pe], Tok::FatArrow)) {
        return Err(ParseError { pos: pe, expected: Expected::Arm });
    }
    let be = crate::enum_parser::scan_body_end(ts, pe + 1);
    let arm = MatchArm { pattern: sub_toks(ts, i, pe), body: sub_toks(ts, pe + 1, be) };
    let ghost am = MatchArmM {
        pattern: s.subrange(i as int, pe as int),
        body: s.subrange(pe + 1, be as int),
    };
    proof {
        assert(arm@ == am);
        lemma_match_arms_push(acc@, arm);
    }
    let mut acc = acc;
    acc.push(arm);
    if be < ts.len() && matches!(&ts[be], Tok::Comma) {
        parse_match_arms(ts, be + 1, acc)
    } else if be < ts.len() && matches!(&ts[be], Tok::RBrace) {
        Ok((acc, be + 1))
    } else {
        Err(ParseError { pos: be, expected: Expected::Separator })
    }
}

/// Reads a dispatch arm list after its opening brace, from nothing
/// accumulated.
pub fn parse_arm_list(ts: &Vec<Tok>, i: usize) -> (r: Result<(Vec<MatchArm>, usize), ParseError>)
    requires
        i <= ts@.len(),
    ensures
        match r {
            Ok((arms, j)) => p_match_arms(toks(ts@), i as int, Seq::empty()) == Some(
                (match_arms_model(arms@), j as int),
            ) && i < j <= ts@.len(),
            Err(_) => p_match_arms(toks(ts@), i as int, Seq::empty()) is None,
        },
{
    proof {
        assert(match_arms_model(Seq::<MatchArm>::empty()) =~= Seq::<MatchArmM>::empty());
    }
    parse_match_arms(ts, i, Vec::new())
}

/// Parses a whole dispatch request from its tokens.
pub fn parse_match_t(ts: &Vec<Tok>) -> (r: Result<MatchTInput, ParseError>)
    ensures
        match r {
            Ok(m) => p_match_t(toks(ts@)) == Some(m@),
            Err(_) => p_match_t(toks(ts@)) is None,
        },
{
    let ghost s = toks(ts@);
    let is_move = ts.len() > 0 && tok_is_id(&ts[0], "move");
    let b: usize = if is_move {
        1
    } else {
        0
    };
    let ee = scan_expr_end(ts, b);
    if !(ee < ts.len()) {
        return Err(ParseError { pos: ee, expected: Expected::OpenDelim });
    }
    let expr = sub_toks(ts, b, ee);
    if tok_is_id(&ts[ee], "as") {
        let he = scan_hint_end(ts, ee + 1);
        if !(he < ts.len() && matches!(&ts[he], Tok::LBrace)) {
            return Err(ParseError { pos: he, expected: Expected::OpenDelim });
        }
        let hint = sub_toks(ts, ee + 1, he);
        proof {
            assert(match_arms_model(Seq::<MatchArm>::empty()) =~= Seq::<MatchArmM>::empty());
        }
        match parse_match_arms(ts, he + 1, Vec::new()) {
            Ok((arms, j)) => {
                if j == ts.len() {
                    Ok(MatchTInput { is_move, expr, type_hint: Some(hint), arms })
                } else {
                    Err(ParseError { pos: j, expected: Expected::End })
                }
            },
            Err(e) => Err(e),
        }
    } else if matches!(&ts[ee], Tok::LBrace) {
        proof {
            assert(match_arms_model(Seq::<MatchArm>::empty()) =~= Seq::<MatchArmM>::empty());
        }
        match parse_match_arms(ts, ee + 1, Vec::new()) {
            Ok((arms, j)) => {
                if j == ts.len() {
                    Ok(MatchTInput { is_move, expr, type_hint: None, arms })
                } else {
                    Err(ParseError { pos: j, expected: Expected::End })
                }
            },
            Err(e) => Err(e),
        }
    } else {
        Err(ParseError { pos: ee, expected: Expected::OpenDelim })
    }
}

/// The end of the leading type name of a pattern: the first field group or,
/// outside angle brackets, any other punctuation.
pub open spec fn tyname_end(s: Seq<TokM>, i: int, da: int) -> int
    decreases s.len() - i,
{
    if i < 0 || i >= s.len() {
        s.len() as int
    } else if s[i] == TokM::LParen || s[i] == TokM::LBrace {
        i
    } else if s[i] == TokM::Lt {
        tyname_end(s, i + 1, da + 1)
    } else if s[i] == TokM::Gt && da > 0 {
        tyname_end(s, i + 1, da - 1)
    } else if da == 0 && !(s[i] is Id || s[i] is Lit || s[i] is Lifetime) {
        i
    } else {
        tyname_end(s, i + 1, da)
    }
}

/// The type-name scan never moves backwards and stays within the text.
pub proof fn lemma_tyname_end_bounds(s: Seq<TokM>, i: int, da: int)
    requires
        0 <= i <= s.len(),
    ensures
        i <= tyname_end(s, i, da) <= s.len(),
    decreases s.len() - i,
{
    if 0 <= i && i < s.len() {
        lemma_tyname_end_bounds(s, i + 1, da + 1);
        lemma_tyname_end_bounds(s, i + 1, da - 1);
        lemma_tyname_end_bounds(s, i + 1, da);
    }
}

/// Extracts from an arm pattern the type name to probe with (generic
/// arguments kept, e.g. `Leaf<i32>`) and the pattern with generic arguments
/// stripped (e.g. `Leaf(x)`).
pub fn extract_type_and_pattern(pattern: &Vec<Tok>) -> (r: (Vec<Tok>, Vec<Tok>))
    ensures
        toks(r.0@) == toks(pattern@).subrange(0, tyname_end(toks(pattern@), 0, 0)),
        toks(r.1@) == stripped(toks(pattern@)),
{
    let ghost s = toks(pattern@);
    let mut j: usize = 0;
    let mut da: usize = 0;
    while j < pattern.len()
        invariant
            j <= pattern@.len(),
            da <= j,
            s == toks(pattern@),
            tyname_end(s, 0, 0) == tyname_end(s, j as int, da as int),
        ensures
            j <= pattern@.len(),
            j as int == tyname_end(s, 0, 0),
        decreases pattern@.len() - j,
    {
        match &pattern[j] {
            Tok::LParen | Tok::LBrace => {
                break ;
            },
            Tok::Lt => {
                da += 1;
            },
            Tok::Gt => {
                if da > 0 {
                    da -= 1;
                } else {
                    break ;
                }
            },
            Tok::Id(_) | Tok::Lit(_) | Tok::Lifetime(_) => {},
            _ => {
                if da == 0 {
                    break ;
                }
            },
        }
        j += 1;
    }
    let probe_name = sub_toks(pattern, 0, j);
    let cleaned = strip_pattern_generics(pattern);
    (probe_name, cleaned)
}

/// The span of the first angle-bracket group of a type hint: from the first
/// `<` through its matching `>`, or to the text's end when it never closes.
pub open spec fn hint_generics_span(s: Seq<TokM>, i: int, da: int) -> Option<int>
    decreases s.len() - i,
{
    if i < 0 || i >= s.len() {
        None
    } else if s[i] == TokM::Lt {
        hint_generics_span(s, i + 1, da + 1)
    } else if s[i] == TokM::Gt && da > 0 {
        if da == 1 {
            Some(i + 1)
        } else {
            hint_generics_span(s, i + 1, da - 1)
        }
    } else {
        if da == 0 {
            hint_generics_span(s, i + 1, 0)
        } else {
            hint_generics_span(s, i + 1, da)
        }
    }
}

/// The position of the first `<` of a type hint, if any.
pub open spec fn first_lt(s: Seq<TokM>, i: int) -> Option<int>
    decreases s.len() - i,
{
    if i < 0 || i >= s.len() {
        None
    } else if s[i] == TokM::Lt {
        Some(i)
    } else {
        first_lt(s, i + 1)
    }
}

/// What `extract_generics_from_type_hint` yields: the tokens from the first
/// `<` through its matching `>`, the rest of the text when it never closes,
/// and nothing when the hint has no angle bracket at all.
pub open spec fn hint_generics(s: Seq<TokM>) -> Option<Seq<TokM>> {
    match first_lt(s, 0) {
        Some(f) => match hint_generics_span(s, f, 0) {
            Some(e) => Some(s.subrange(f, e)),
            None => Some(s.subrange(f, s.len() as int)),
        },
        None => None,
    }
}

/// A found angle-bracket group lies within the text.
pub proof fn lemma_hint_generics_span_bounds(s: Seq<TokM>, i: int, da: int)
    requires
        0 <= i <= s.len(),
    ensures
        hint_generics_span(s, i, da) matches Some(e) ==> i < e <= s.len(),
    decreases s.len() - i,
{
    if 0 <= i && i < s.len() {
        lemma_hint_generics_span_bounds(s, i + 1, da + 1);
        lemma_hint_generics_span_bounds(s, i + 1, da - 1);
        lemma_hint_generics_span_bounds(s, i + 1, 0);
        lemma_hint_generics_span_bounds(s, i + 1, da);
    }
}

/// A found first `<` lies within the text.
pub proof fn lemma_first_lt_bounds(s: Seq<TokM>, i: int)
    requires
        0 <= i <= s.len(),
    ensures
        first_lt(s, i) matches Some(f) ==> i <= f < s.len() && s[f] == TokM::Lt,
    decreases s.len() - i,
{
    if 0 <= i && i < s.len() && s[i] != TokM::Lt {
        lemma_first_lt_bounds(s, i + 1);
    }
}

/// Extracts the generic arguments of a type hint, brackets included:
/// `Tree<i32>` yields `<i32>`.
pub fn extract_generics_from_type_hint(type_hint: &Vec<Tok>) -> (r: Option<Vec<Tok>>)
    ensures
        match r {
            Some(g) => hint_generics(toks(type_hint@)) == Some(toks(g@)),
            None => hint_generics(toks(type_hint@)) is None,
        },
{
    let ghost s = toks(type_hint@);
    proof {
        lemma_first_lt_bounds(s, 0);
    }
    let mut f: usize = 0;
    while f < type_hint.len() && !matches!(&type_hint[f], Tok::Lt)
        invariant
            f <= type_hint@.len(),
            s == toks(type_hint@),
            first_lt(s, 0) == first_lt(s, f as int),
        decreases type_hint@.len() - f,
    {
        f += 1;
    }
    if f >= type_hint.len() {
        return None;
    }
    proof {
        assert(first_lt(s, f as int) == Some(f as int));
        lemma_hint_generics_span_bounds(s, f as int, 0);
    }
    let mut j: usize = f;
    let mut da: usize = 0;
    while j < type_hint.len()
        invariant
            f <= j <= type_hint@.len(),
            f < type_hint@.len(),
            da <= j,
            s == toks(type_hint@),
            first_lt(s, 0) == Some(f as int),
            hint_generics_span(s, f as int, 0) == hint_generics_span(s, j as int, da as int),
        decreases type_hint@.len() - j,
    {
        match &type_hint[j] {
            Tok::Lt => {
                da += 1;
            },
            Tok::Gt => {
                if da == 1 {
                    return Some(sub_toks(type_hint, f, j + 1));
                }
                if da > 0 {
                    da -= 1;
                }
            },
            _ => {},
        }
        j += 1;
    }
    Some(sub_toks(type_hint, f, type_hint.len()))
}

} // verus!
