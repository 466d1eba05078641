//! Lowering of a dispatch request into an ordered probe plan.
//!
//! A request `match [move] handle { arms }` becomes one probe per arm, in
//! arm order.  Under ownership transfer each probe carries the variant's
//! type name, the arm's pattern with a rest placeholder appended so the
//! record's trailing nominal marker is ignored, and the arm's body.  Under
//! borrowed inspection each probe names the variant's hidden accessor and
//! classifies the arm's local pattern, which decides how the accessor's
//! result is re-specialized.

use vstd::prelude::*;

verus! {

use crate::tok::{lemma_toks_push, str_eq, toks, toks_equal, tok_is_id, Tok, TokM};
use crate::ast::{clone_toks, extend_toks, sub_toks};
use crate::parser::{Expected, ParseError};
use crate::pattern_parser::{
    hint_end,
    match_arms_model,
    p_match_arms,
    parse_arm_list,
    MatchArm,
    MatchArmM,
    MatchTInputM,
};

/// The leading run of name tokens of a pattern: identifiers and literals,
/// up to the first punctuation or field group.
pub open spec fn name_end(s: Seq<TokM>, i: int) -> int
    decreases s.len() - i,
{
    if 0 <= i && i < s.len() && (s[i] is Id || s[i] is Lit) {
        name_end(s, i + 1)
    } else {
        i
    }
}

/// Scans the leading name run of a pattern.
fn scan_name_end(ts: &Vec<Tok>, i: usize) -> (r: usize)
    requires
        i <= ts@.len(),
    ensures
        r as int == name_end(toks(ts@), i as int),
        i <= r <= ts@.len(),
{
    let ghost s = toks(ts@);
    let mut j = i;
    while j < ts.len() && matches!(&ts[j], Tok::Id(_) | Tok::Lit(_))
        invariant
            i <= j <= ts@.len(),
            s == toks(ts@),
            name_end(s, i as int) == name_end(s, j as int),
        decreases ts@.len() - j,
    {
        j += 1;
    }
    j
}

/// The position after the delimiter closing `depth` open ones, counting all
/// three delimiter kinds together; negative when the text ends first.
pub open spec fn group_close(s: Seq<TokM>, i: int, depth: int) -> int
    decreases s.len() - i,
{
    if i < 0 || i >= s.len() {
        -1
    } else if s[i] == TokM::LParen || s[i] == TokM::LBracket || s[i] == TokM::LBrace {
        group_close(s, i + 1, depth + 1)
    } else if s[i] == TokM::RParen || s[i] == TokM::RBracket || s[i] == TokM::RBrace {
        if depth <= 1 {
            i + 1
        } else {
            group_close(s, i + 1, depth - 1)
        }
    } else {
        group_close(s, i + 1, depth)
    }
}

/// A found group close lies within the text.
pub proof fn lemma_group_close_bounds(s: Seq<TokM>, i: int, depth: int)
    requires
        0 <= i <= s.len(),
    ensures
        group_close(s, i, depth) == -1 || i < group_close(s, i, depth) <= s.len(),
    decreases s.len() - i,
{
    if 0 <= i && i < s.len() {
        lemma_group_close_bounds(s, i + 1, depth + 1);
        lemma_group_close_bounds(s, i + 1, depth - 1);
        lemma_group_close_bounds(s, i + 1, depth);
    }
}

/// The span of the last top-level delimiter group of a pattern: the opening
/// delimiter's position and the position after its matching close.
pub open spec fn last_group(s: Seq<TokM>, i: int, cur: Option<(int, int)>) -> Option<(int, int)>
    decreases s.len() - i,
    when 0 <= i
    via last_group_dec
{
    if i >= s.len() {
        cur
    } else if s[i] == TokM::LParen || s[i] == TokM::LBracket || s[i] == TokM::LBrace {
        let e = group_close(s, i + 1, 1);
        if e < 0 {
            cur
        } else {
            last_group(s, e, Some((i, e)))
        }
    } else {
        last_group(s, i + 1, cur)
    }
}

#[via_fn]
proof fn last_group_dec(s: Seq<TokM>, i: int, cur: Option<(int, int)>) {
    if 0 <= i && i + 1 <= s.len() {
        lemma_group_close_bounds(s, i + 1, 1);
    }
}

/// True when the tokens hold an adjacent pair of dots — a rest placeholder.
pub open spec fn has_rest(s: Seq<TokM>) -> bool {
    exists|k: int|
        0 <= k && k + 1 < s.len() && #[trigger] s[k] == TokM::Punct('.') && s[k + 1]
            == TokM::Punct('.')
}

/// What appending a rest placeholder makes of a pattern: the contents of
/// its last field group gain a trailing `, ..` (just `..` after an existing
/// trailing comma), so that a record's trailing nominal marker field is
/// ignored; a pattern with no group, an empty group, or a rest placeholder
/// already present stands unchanged.
pub open spec fn with_rest(s: Seq<TokM>) -> Seq<TokM> {
    match last_group(s, 0, None) {
        Some((g, h)) => {
            let inner = s.subrange(g + 1, h - 1);
            if inner.len() == 0 || has_rest(inner) {
                s
            } else {
                let tail: Seq<TokM> = if inner.last() == TokM::Comma {
                    seq![TokM::Punct('.'), TokM::Punct('.')]
                } else {
                    seq![TokM::Comma, TokM::Punct('.'), TokM::Punct('.')]
                };
                s.subrange(0, h - 1) + tail + s.subrange(h - 1, s.len() as int)
            }
        },
        None => s,
    }
}

/// Scans for the last top-level delimiter group of a pattern.
fn scan_last_group(ts: &Vec<Tok>) -> (r: Option<(usize, usize)>)
    ensures
        match r {
            Some((g, h)) => last_group(toks(ts@), 0, None) == Some((g as int, h as int)) && g + 2
                <= h <= ts@.len(),
            None => last_group(toks(ts@), 0, None) is None,
        },
{
    let ghost s = toks(ts@);
    let mut i: usize = 0;
    let mut cur: Option<(usize, usize)> = None;
    while i < ts.len()
        invariant
            i <= ts@.len(),
            s == toks(ts@),
            match cur {
                Some((g, h)) => last_group(s, 0, None) == last_group(
                    s,
                    i as int,
                    Some((g as int, h as int)),
                ) && g + 2 <= h <= ts@.len(),
                None => last_group(s, 0, None) == last_group(s, i as int, None),
            },
        decreases ts@.len() - i,
    {
        if matches!(&ts[i], Tok::LParen | Tok::LBracket | Tok::LBrace) {
            proof {
                lemma_group_close_bounds(s, i + 1, 1);
            }
            match scan_group_close(ts, i + 1, 1) {
                Some(e) => {
                    cur = Some((i, e));
                    i = e;
                },
                None => {
                    return cur;
                },
            }
        } else {
            i += 1;
        }
    }
    cur
}

/// Scans past the delimiter closing `depth` open ones.
fn scan_group_close(ts: &Vec<Tok>, i: usize, depth: usize) -> (r: Option<usize>)
    requires
        i <= ts@.len(),
        1 <= depth <= i,
    ensures
        match r {
            Some(j) => group_close(toks(ts@), i as int, depth as int) == j as int && i < j
                <= ts@.len(),
            None => group_close(toks(ts@), i as int, depth as int) == -1,
        },
{
    let ghost s = toks(ts@);
    let mut j = i;
    let mut d = depth;
    while j < ts.len()
        invariant
            i <= j <= ts@.len(),
            1 <= d <= j,
            s == toks(ts@),
            group_close(s, i as int, depth as int) == group_close(s, j as int, d as int),
        decreases ts@.len() - j,
    {
        match &ts[j] {
            Tok::LParen | Tok::LBracket | Tok::LBrace => {
                d += 1;
            },
            Tok::RParen | Tok::RBracket | Tok::RBrace => {
                if d == 1 {
                    return Some(j + 1);
                }
                d -= 1;
            },
            _ => {},
        }
        j += 1;
    }
    None
}

/// True when the tokens hold an adjacent pair of dots.
fn toks_have_rest(ts: &Vec<Tok>) -> (r: bool)
    ensures
        r == has_rest(toks(ts@)),
{
    let ghost s = toks(ts@);
    if ts.len() < 2 {
        return false;
    }
    let mut k: usize = 0;
    while k < ts.len() - 1
        invariant
            ts@.len() >= 2,
            k + 1 <= ts@.len(),
            s == toks(ts@),
            forall|m: int|
                0 <= m < k ==> !(#[trigger] s[m] == TokM::Punct('.') && s[m + 1]
                    == TokM::Punct('.')),
        decreases ts@.len() - k,
    {
        if matches!(&ts[k], Tok::Punct('.')) && matches!(&ts[k + 1], Tok::Punct('.')) {
            proof {
                assert(s[k as int] == TokM::Punct('.') && s[k as int + 1] == TokM::Punct('.'));
            }
            return true;
        }
        k += 1;
    }
    false
}

/// Transform a pattern to ignore a record's trailing nominal marker field:
/// append a rest placeholder inside its last field group, unless one is
/// already there.
#[verifier::rlimit(50)]
pub fn transform_pattern_add_rest(pattern: &Vec<Tok>) -> (r: Vec<Tok>)
    ensures
        toks(r@) =~= with_rest(toks(pattern@)),
{
    let ghost s = toks(pattern@);
    match scan_last_group(pattern) {
        Some((g, h)) => {
            let inner = sub_toks(pattern, g + 1, h - 1);
            if inner.len() == 0 || toks_have_rest(&inner) {
                clone_toks(pattern)
            } else {
                let mut out = sub_toks(pattern, 0, h - 1);
                let is_comma = matches!(&pattern[h - 2], Tok::Comma);
                proof {
                    assert(toks(inner@).last() == s[h - 2]);
                    assert(is_comma == (toks(inner@).last() == TokM::Comma));
                }
                if !is_comma {
                    let t = Tok::Comma;
                    proof {
                        lemma_toks_push(out@, t);
                    }
                    out.push(t);
                }
                let d1 = Tok::Punct('.');
                proof {
                    lemma_toks_push(out@, d1);
                }
                out.push(d1);
                let d2 = Tok::Punct('.');
                proof {
                    lemma_toks_push(out@, d2);
                }
                out.push(d2);
                let rest = sub_toks(pattern, h - 1, pattern.len());
                extend_toks(&mut out, &rest);
                out
            }
        },
        None => clone_toks(pattern),
    }
}

/// One probe of an ownership-transferring dispatch: the variant's type
/// name, the arm's pattern with the rest placeholder appended, and the
/// arm's body.
pub struct MoveProbe {
    pub variant: Vec<Tok>,
    pub pattern: Vec<Tok>,
    pub body: Vec<Tok>,
}

/// Model of a transferring probe.
pub struct MoveProbeM {
    pub variant: Seq<TokM>,
    pub pattern: Seq<TokM>,
    pub body: Seq<TokM>,
}

impl View for MoveProbe {
    type V = MoveProbeM;

    open spec fn view(&self) -> MoveProbeM {
        MoveProbeM {
            variant: toks(self.variant@),
            pattern: toks(self.pattern@),
            body: toks(self.body@),
        }
    }
}

/// What lowering one arm under ownership transfer yields.
pub open spec fn move_probe_of(arm: MatchArmM) -> MoveProbeM {
    MoveProbeM {
        variant: arm.pattern.subrange(0, name_end(arm.pattern, 0)),
        pattern: with_rest(arm.pattern),
        body: arm.body,
    }
}

/// Model of a transferring probe list.
pub open spec fn move_probes_model(v: Seq<MoveProbe>) -> Seq<MoveProbeM> {
    v.map_values(|p: MoveProbe| p@)
}

/// Pushing a probe extends the model by its view.
pub proof fn lemma_move_probes_push(v: Seq<MoveProbe>, p: MoveProbe)
    ensures
        move_probes_model(v.push(p)) =~= move_probes_model(v).push(p@),
{
}

/// Expand the transferring form of a dispatch: one probe per arm, in arm
/// order.
pub fn generate_move_match(arms: &Vec<MatchArm>) -> (r: Vec<MoveProbe>)
    ensures
        move_probes_model(r@).len() == arms@.len(),
        forall|i: int|
            0 <= i < arms@.len() ==> move_probes_model(r@)[i] == move_probe_of(
                match_arms_model(arms@)[i],
            ),
{
    let mut out: Vec<MoveProbe> = Vec::new();
    let mut i: usize = 0;
    while i < arms.len()
        invariant
            i <= arms@.len(),
            move_probes_model(out@).len() == i,
            forall|k: int|
                0 <= k < i ==> move_probes_model(out@)[k] == move_probe_of(
                    match_arms_model(arms@)[k],
                ),
        decreases arms@.len() - i,
    {
        let arm = &arms[i];
        let ghost am = match_arms_model(arms@)[i as int];
        let ne = scan_name_end(&arm.pattern, 0);
        let probe = MoveProbe {
            variant: sub_toks(&arm.pattern, 0, ne),
            pattern: transform_pattern_add_rest(&arm.pattern),
            body: clone_toks(&arm.body),
        };
        proof {
            assert(am == arms@[i as int]@);
            assert(probe@ == move_probe_of(am));
            lemma_move_probes_push(out@, probe);
        }
        out.push(probe);
        i += 1;
    }
    out
}

/// How a borrowed-dispatch arm uses the accessor's result.
#[derive(Debug, Clone, Copy)]
pub enum RefArmKind {
    /// A simple binding returned whole: the type-erased result is
    /// re-specialized to the caller's expected type.
    BindWhole,
    /// A simple binding dereferenced in the body: the result is
    /// re-specialized and its value copied out.
    BindDeref,
    /// A simple binding used some other way in the body.
    BindOther,
    /// A wildcard or destructuring pattern, matched structurally against
    /// the accessor's direct result.
    Destructure,
}

/// One probe of a borrowed dispatch: the variant whose accessor is tried,
/// the arm's inner pattern, the optional explicit target type, how the
/// pattern uses the result, and the arm's body.
pub struct RefProbe {
    pub variant: Vec<Tok>,
    pub inner_pattern: Vec<Tok>,
    pub cast_ty: Option<Vec<Tok>>,
    pub kind: RefArmKind,
    pub body: Vec<Tok>,
}

/// Model of a borrowed probe.
pub struct RefProbeM {
    pub variant: Seq<TokM>,
    pub inner_pattern: Seq<TokM>,
    pub cast_ty: Option<Seq<TokM>>,
    pub kind: RefArmKind,
    pub body: Seq<TokM>,
}

impl View for RefProbe {
    type V = RefProbeM;

    open spec fn view(&self) -> RefProbeM {
        RefProbeM {
            variant: toks(self.variant@),
            inner_pattern: toks(self.inner_pattern@),
            cast_ty: match self.cast_ty {
                Some(ts) => Some(toks(ts@)),
                None => None,
            },
            kind: self.kind,
            body: toks(self.body@),
        }
    }
}

/// The position of the first opening parenthesis, if any.
pub open spec fn first_lparen(s: Seq<TokM>, i: int) -> Option<int>
    decreases s.len() - i,
{
    if i < 0 || i >= s.len() {
        None
    } else if s[i] == TokM::LParen {
        Some(i)
    } else {
        first_lparen(s, i + 1)
    }
}

/// A found opening parenthesis lies within the text.
pub proof fn lemma_first_lparen_bounds(s: Seq<TokM>, i: int)
    requires
        0 <= i <= s.len(),
    ensures
        first_lparen(s, i) matches Some(f) ==> i <= f < s.len() && s[f] == TokM::LParen,
    decreases s.len() - i,
{
    if 0 <= i && i < s.len() && s[i] != TokM::LParen {
        lemma_first_lparen_bounds(s, i + 1);
    }
}

/// The position of the first `as` keyword outside nested groups, if any.
pub open spec fn first_as(s: Seq<TokM>, i: int, dd: int) -> Option<int>
    decreases s.len() - i,
{
    if i < 0 || i >= s.len() {
        None
    } else if dd == 0 && s[i] == TokM::Id("as"@) {
        Some(i)
    } else if s[i] == TokM::LParen || s[i] == TokM::LBracket || s[i] == TokM::LBrace {
        first_as(s, i + 1, dd + 1)
    } else if s[i] == TokM::RParen || s[i] == TokM::RBracket || s[i] == TokM::RBrace {
        first_as(
            s,
            i + 1,
            if dd > 0 {
                dd - 1
            } else {
                0
            },
        )
    } else {
        first_as(s, i + 1, dd)
    }
}

/// A found `as` lies within the text.
pub proof fn lemma_first_as_bounds(s: Seq<TokM>, i: int, dd: int)
    requires
        0 <= i <= s.len(),
    ensures
        first_as(s, i, dd) matches Some(f) ==> i <= f < s.len(),
    decreases s.len() - i,
{
    if 0 <= i && i < s.len() {
        lemma_first_as_bounds(s, i + 1, dd + 1);
        lemma_first_as_bounds(
            s,
            i + 1,
            if dd > 0 {
                dd - 1
            } else {
                0
            },
        );
        lemma_first_as_bounds(s, i + 1, dd);
    }
}

/// What `extract_inner_pattern_and_type` yields: the contents of the
/// pattern's first parenthesized group, split at an `as` type ascription
/// when one is present; a unit variant's pattern yields nothing.
pub open spec fn inner_and_type(s: Seq<TokM>) -> (Seq<TokM>, Option<Seq<TokM>>) {
    match first_lparen(s, 0) {
        Some(f) => {
            let e = group_close(s, f + 1, 1);
            if e < 0 {
                (Seq::empty(), None)
            } else {
                let inner = s.subrange(f + 1, e - 1);
                match first_as(inner, 0, 0) {
                    Some(p) => (inner.subrange(0, p), Some(inner.subrange(p + 1, inner.len() as int))),
                    None => (inner, None),
                }
            }
        },
        None => (Seq::empty(), None),
    }
}

/// Extract the inner pattern from a variant pattern, and any `as` type
/// ascription: `Exist(v as &u8)` yields `v` and `&u8`.
pub fn extract_inner_pattern_and_type(pattern: &Vec<Tok>) -> (r: (Vec<Tok>, Option<Vec<Tok>>))
    ensures
        (toks(r.0@), match r.1 {
            Some(ts) => Some(toks(ts@)),
            None => None,
        }) == inner_and_type(toks(pattern@)),
{
    let ghost s = toks(pattern@);
    proof {
        lemma_first_lparen_bounds(s, 0);
    }
    let mut f: usize = 0;
    while f < pattern.len() && !matches!(&pattern[f], Tok::LParen)
        invariant
            f <= pattern@.len(),
            s == toks(pattern@),
            first_lparen(s, 0) == first_lparen(s, f as int),
        decreases pattern@.len() - f,
    {
        f += 1;
    }
    if f >= pattern.len() {
        return (Vec::new(), None);
    }
    proof {
        assert(first_lparen(s, f as int) == Some(f as int));
    }
    match scan_group_close(pattern, f + 1, 1) {
        Some(e) => {
            let inner = sub_toks(pattern, f + 1, e - 1);
            let ghost im = s.subrange(f + 1, e - 1);
            proof {
                lemma_first_as_bounds(im, 0, 0);
            }
            match scan_first_as(&inner) {
                Some(p) => {
                    let binding = sub_toks(&inner, 0, p);
                    let ty = sub_toks(&inner, p + 1, inner.len());
                    (binding, Some(ty))
                },
                None => (inner, None),
            }
        },
        None => (Vec::new(), None),
    }
}

/// Scans for the first `as` keyword outside nested groups.
fn scan_first_as(ts: &Vec<Tok>) -> (r: Option<usize>)
    ensures
        match r {
            Some(p) => first_as(toks(ts@), 0, 0) == Some(p as int) && p < ts@.len(),
            None => first_as(toks(ts@), 0, 0) is None,
        },
{
    let ghost s = toks(ts@);
    let mut j: usize = 0;
    let mut dd: usize = 0;
    while j < ts.len()
        invariant
            j <= ts@.len(),
            dd <= j,
            s == toks(ts@),
            first_as(s, 0, 0) == first_as(s, j as int, dd as int),
        decreases ts@.len() - j,
    {
        match &ts[j] {
            Tok::Id(name) => {
                if dd == 0 && str_eq(name.as_str(), "as") {
                    return Some(j);
                }
            },
            Tok::LParen | Tok::LBracket | Tok::LBrace => {
                dd += 1;
            },
            Tok::RParen | Tok::RBracket | Tok::RBrace => {
                if dd > 0 {
                    dd -= 1;
                }
            },
            _ => {},
        }
        j += 1;
    }
    None
}

/// A simple binding: no comma and no nested tuple pattern among the inner
/// tokens, and not the wildcard.
pub open spec fn is_simple_binding(inner: Seq<TokM>) -> bool {
    inner.len() > 0 && (forall|k: int|
        0 <= k < inner.len() ==> inner[k] != TokM::Comma && inner[k] != TokM::LParen) && inner
        != seq![TokM::Id("_"@)]
}

/// How a borrowed-dispatch arm uses the accessor's result: a simple binding
/// handed back whole, dereferenced, or used otherwise; anything else is
/// structural.
pub open spec fn ref_kind_of(inner: Seq<TokM>, body: Seq<TokM>) -> RefArmKind {
    if is_simple_binding(inner) {
        if body == inner {
            RefArmKind::BindWhole
        } else if body == seq![TokM::Punct('*')] + inner {
            RefArmKind::BindDeref
        } else {
            RefArmKind::BindOther
        }
    } else {
        RefArmKind::Destructure
    }
}

/// What lowering one arm under borrowed inspection yields.
pub open spec fn ref_probe_of(arm: MatchArmM) -> RefProbeM {
    let (inner, cast_ty) = inner_and_type(arm.pattern);
    RefProbeM {
        variant: arm.pattern.subrange(0, name_end(arm.pattern, 0)),
        inner_pattern: inner,
        cast_ty,
        kind: ref_kind_of(inner, arm.body),
        body: arm.body,
    }
}

/// Model of a borrowed probe list.
pub open spec fn ref_probes_model(v: Seq<RefProbe>) -> Seq<RefProbeM> {
    v.map_values(|p: RefProbe| p@)
}

/// Pushing a probe extends the model by its view.
pub proof fn lemma_ref_probes_push(v: Seq<RefProbe>, p: RefProbe)
    ensures
        ref_probes_model(v.push(p)) =~= ref_probes_model(v).push(p@),
{
}

/// Decides how a borrowed-dispatch arm uses the accessor's result.
fn classify_ref_arm(inner: &Vec<Tok>, body: &Vec<Tok>) -> (r: RefArmKind)
    ensures
        r == ref_kind_of(toks(inner@), toks(body@)),
{
    let ghost im = toks(inner@);
    let mut simple = inner.len() > 0;
    let mut k: usize = 0;
    while k < inner.len()
        invariant
            k <= inner@.len(),
            im == toks(inner@),
            simple == (inner@.len() > 0 && forall|m: int|
                0 <= m < k ==> im[m] != TokM::Comma && im[m] != TokM::LParen),
        decreases inner@.len() - k,
    {
        if matches!(&inner[k], Tok::Comma | Tok::LParen) {
            proof {
                assert(im[k as int] == TokM::Comma || im[k as int] == TokM::LParen);
            }
            simple = false;
        }
        k += 1;
    }
    if simple && inner.len() == 1 && tok_is_id(&inner[0], "_") {
        proof {
            assert(im =~= seq![TokM::Id("_"@)]);
        }
        simple = false;
    } else {
        proof {
            if simple {
                assert(im != seq![TokM::Id("_"@)]) by {
                    if im == seq![TokM::Id("_"@)] {
                        assert(im.len() == 1);
                        assert(im[0] == TokM::Id("_"@));
                    }
                }
            }
        }
    }
    if !simple {
        proof {
            assert(!is_simple_binding(im));
        }
        return RefArmKind::Destructure;
    }
    proof {
        assert(is_simple_binding(im));
    }
    if toks_equal(body, inner) {
        return RefArmKind::BindWhole;
    }
    let mut star_inner: Vec<Tok> = Vec::new();
    let t = Tok::Punct('*');
    proof {
        lemma_toks_push(star_inner@, t);
        assert(toks(star_inner@) =~= Seq::<TokM>::empty());
    }
    star_inner.push(t);
    extend_toks(&mut star_inner, inner);
    proof {
        assert(toks(star_inner@) =~= seq![TokM::Punct('*')] + toks(inner@));
    }
    if toks_equal(body, &star_inner) {
        return RefArmKind::BindDeref;
    }
    RefArmKind::BindOther
}

/// Expand the borrowed form of a dispatch: one accessor probe per arm, in
/// arm order.
pub fn generate_ref_match(arms: &Vec<MatchArm>) -> (r: Vec<RefProbe>)
    ensures
        ref_probes_model(r@).len() == arms@.len(),
        forall|i: int|
            0 <= i < arms@.len() ==> ref_probes_model(r@)[i] == ref_probe_of(
                match_arms_model(arms@)[i],
            ),
{
    let mut out: Vec<RefProbe> = Vec::new();
    let mut i: usize = 0;
    while i < arms.len()
        invariant
            i <= arms@.len(),
            ref_probes_model(out@).len() == i,
            forall|k: int|
                0 <= k < i ==> ref_probes_model(out@)[k] == ref_probe_of(
                    match_arms_model(arms@)[k],
                ),
        decreases arms@.len() - i,
    {
        let arm = &arms[i];
        let ghost am = match_arms_model(arms@)[i as int];
        let ne = scan_name_end(&arm.pattern, 0);
        let (inner, cast_ty) = extract_inner_pattern_and_type(&arm.pattern);
        let kind = classify_ref_arm(&inner, &arm.body);
        let probe = RefProbe {
            variant: sub_toks(&arm.pattern, 0, ne),
            inner_pattern: inner,
            cast_ty,
            kind,
            body: clone_toks(&arm.body),
        };
        proof {
            assert(am == arms@[i as int]@);
            assert(probe@ == ref_probe_of(am));
            lemma_ref_probes_push(out@, probe);
        }
        out.push(probe);
        i += 1;
    }
    out
}

/// The probes of a lowered dispatch: transferring or borrowed.
pub enum Probes {
    Move(Vec<MoveProbe>),
    Ref(Vec<RefProbe>),
}

/// A lowered dispatch request: the mode, the handle expression, and one
/// probe per arm in arm order.
pub struct DispatchPlan {
    pub is_move: bool,
    pub expr: Vec<Tok>,
    pub probes: Probes,
}

/// The request grammar of the inline dispatch form:
/// `match [move] handle-expr { arms }`, consuming the whole text.
pub open spec fn p_match_expr(s: Seq<TokM>) -> Option<MatchTInputM> {
    if !(s.len() > 0 && s[0] == TokM::Id("match"@)) {
        None
    } else {
        let b: int = if s.len() > 1 && s[1] == TokM::Id("move"@) {
            2
        } else {
            1
        };
        let is_move = b == 2;
        let ee = hint_end(s, b, 0);
        if !(ee < s.len() && s[ee] == TokM::LBrace) {
            None
        } else {
            match p_match_arms(s, ee + 1, Seq::empty()) {
                Some((arms, j)) => {
                    if j == s.len() {
                        Some(
                            MatchTInputM {
                                is_move,
                                expr: s.subrange(b, ee),
                                type_hint: None,
                                arms,
                            },
                        )
                    } else {
                        None
                    }
                },
                None => None,
            }
        }
    }
}

/// Parse an inline dispatch request and lower it to its probe plan: one
/// probe per arm, in arm order, transferring or borrowed as the request
/// says.
pub fn match_impl(ts: &Vec<Tok>) -> (r: Result<DispatchPlan, ParseError>)
    ensures
        match r {
            Ok(plan) => p_match_expr(toks(ts@)) matches Some(m) && plan.is_move == m.is_move
                && toks(plan.expr@) == m.expr && (match plan.probes {
                Probes::Move(ps) => plan.is_move && move_probes_model(ps@).len() == m.arms.len()
                    && (forall|i: int|
                    0 <= i < m.arms.len() ==> move_probes_model(ps@)[i] == move_probe_of(
                        m.arms[i],
                    )),
                Probes::Ref(ps) => !plan.is_move && ref_probes_model(ps@).len() == m.arms.len()
                    && (forall|i: int|
                    0 <= i < m.arms.len() ==> ref_probes_model(ps@)[i] == ref_probe_of(m.arms[i])),
            }),
            Err(_) => p_match_expr(toks(ts@)) is None,
        },
{
    let ghost s = toks(ts@);
    if !(ts.len() > 0 && tok_is_id(&ts[0], "match")) {
        return Err(ParseError { pos: 0, expected: Expected::Keyword });
    }
    let is_move = ts.len() > 1 && tok_is_id(&ts[1], "move");
    let b: usize = if is_move {
        2
    } else {
        1
    };
    let ee = scan_match_expr_end(ts, b);
    if !(ee < ts.len() && matches!(&ts[ee], Tok::LBrace)) {
        return Err(ParseError { pos: ee, expected: Expected::OpenDelim });
    }
    let expr = sub_toks(ts, b, ee);
    let (arms, j) = match parse_arm_list(ts, ee + 1) {
        Ok(x) => x,
        Err(e) => {
            return Err(e);
        },
    };
    if j != ts.len() {
        return Err(ParseError { pos: j, expected: Expected::End });
    }
    if is_move {
        let probes = generate_move_match(&arms);
        Ok(DispatchPlan { is_move, expr, probes: Probes::Move(probes) })
    } else {
        let probes = generate_ref_match(&arms);
        Ok(DispatchPlan { is_move, expr, probes: Probes::Ref(probes) })
    }
}

/// Scans to the opening brace of the arm list.
fn scan_match_expr_end(ts: &Vec<Tok>, i: usize) -> (r: usize)
    requires
        i <= ts@.len(),
    ensures
        r as int == hint_end(toks(ts@), i as int, 0),
        i <= r <= ts@.len(),
{
    let ghost s = toks(ts@);
    let mut j = i;
    let mut dd: usize = 0;
    while j < ts.len()
        invariant
            i <= j <= ts@.len(),
            dd <= j,
            s == toks(ts@),
            hint_end(s, i as int, 0) == hint_end(s, j as int, dd as int),
        decreases ts@.len() - j,
    {
        match &ts[j] {
            Tok::LBrace => {
                if dd == 0 {
                    return j;
                }
                dd += 1;
            },
            Tok::LParen | Tok::LBracket => {
                dd += 1;
            },
            Tok::RParen | Tok::RBracket | Tok::RBrace => {
                if dd > 0 {
                    dd -= 1;
                }
            },
            _ => {},
        }
        j += 1;
    }
    ts.len()
}

} // verus!
