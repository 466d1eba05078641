//! The declaration parser for the flat union syntax with shared operations:
//!
//! ```text
//! pub enum Name<Params> {
//!     VariantA(Type1, Type2),
//!     VariantB { field: Type },
//!     VariantC : RefinementType,
//! }
//!
//! fn operation(&self) -> Return {
//!     VariantA(pattern) => body,
//!     VariantB { field } => body,
//! }
//! ```
//!
//! As in the sibling indexed-syntax parser, every executable parsing
//! function mirrors a specification function over token models, and the
//! scans balance nested angle brackets and delimiters.

use vstd::prelude::*;

verus! {

use crate::tok::{toks, tok_is_id, Tok, TokM};
use crate::ast::{
    attrs_model,
    lemma_attrs_push,
    lemma_named_fields_push,
    lemma_tys_push,
    named_fields_model,
    params_model,
    sub_toks,
    tys_model,
    Attr,
    AttrM,
    Fields,
    FieldsM,
    GenericsDecl,
    NamedField,
    NamedFieldM,
    TypeParamM,
};
use crate::parser::{
    lemma_p_generics_bounds,
    lemma_paren_end_bounds,
    p_generics,
    paren_end,
    parse_generics,
    parse_visibility,
    vis_end,
    Expected,
    ParseError,
};

/// Parsed variant with optional trait type constraint.
pub struct ParsedVariant {
    pub attrs: Vec<Attr>,
    pub ident: String,
    pub generics: GenericsDecl,
    pub fields: Fields,
    pub trait_type: Option<Vec<Tok>>,
}

/// Model of a parsed variant.
pub struct ParsedVariantM {
    pub attrs: Seq<AttrM>,
    pub ident: Seq<char>,
    pub generics: Seq<TypeParamM>,
    pub fields: FieldsM,
    pub trait_type: Option<Seq<TokM>>,
}

impl View for ParsedVariant {
    type V = ParsedVariantM;

    open spec fn view(&self) -> ParsedVariantM {
        ParsedVariantM {
            attrs: attrs_model(self.attrs@),
            ident: self.ident@,
            generics: self.generics@,
            fields: self.fields@,
            trait_type: match self.trait_type {
                Some(ts) => Some(toks(ts@)),
                None => None,
            },
        }
    }
}

/// Model of a parsed-variant list.
pub open spec fn pvariants_model(v: Seq<ParsedVariant>) -> Seq<ParsedVariantM> {
    v.map_values(|p: ParsedVariant| p@)
}

/// Pushing a parsed variant extends the model by its view.
pub proof fn lemma_pvariants_push(v: Seq<ParsedVariant>, p: ParsedVariant)
    ensures
        pvariants_model(v.push(p)) =~= pvariants_model(v).push(p@),
{
}

/// A single operation arm: a variant pattern and its body.
pub struct MethodArm {
    pub pattern: Vec<Tok>,
    pub body: Vec<Tok>,
}

/// Model of an operation arm.
pub struct MethodArmM {
    pub pattern: Seq<TokM>,
    pub body: Seq<TokM>,
}

impl View for MethodArm {
    type V = MethodArmM;

    open spec fn view(&self) -> MethodArmM {
        MethodArmM { pattern: toks(self.pattern@), body: toks(self.body@) }
    }
}

/// Model of an arm list.
pub open spec fn arms_model(v: Seq<MethodArm>) -> Seq<MethodArmM> {
    v.map_values(|a: MethodArm| a@)
}

/// Pushing an arm extends the model by its view.
pub proof fn lemma_arms_push(v: Seq<MethodArm>, a: MethodArm)
    ensures
        arms_model(v.push(a)) =~= arms_model(v).push(a@),
{
}

/// A shared operation: its signature and its pattern/body arms.
pub struct ParsedMethod {
    pub sig: Vec<Tok>,
    pub arms: Vec<MethodArm>,
}

/// Model of a shared operation.
pub struct ParsedMethodM {
    pub sig: Seq<TokM>,
    pub arms: Seq<MethodArmM>,
}

impl View for ParsedMethod {
    type V = ParsedMethodM;

    open spec fn view(&self) -> ParsedMethodM {
        ParsedMethodM { sig: toks(self.sig@), arms: arms_model(self.arms@) }
    }
}

/// Model of an operation list.
pub open spec fn methods_model(v: Seq<ParsedMethod>) -> Seq<ParsedMethodM> {
    v.map_values(|m: ParsedMethod| m@)
}

/// Pushing an operation extends the model by its view.
pub proof fn lemma_methods_push(v: Seq<ParsedMethod>, m: ParsedMethod)
    ensures
        methods_model(v.push(m)) =~= methods_model(v).push(m@),
{
}

/// The whole parsed declaration: the union header, its variants, and the
/// shared operations that follow the variant list.
pub struct ParsedEnum {
    pub attrs: Vec<Attr>,
    pub vis: Vec<Tok>,
    pub ident: String,
    pub generics: GenericsDecl,
    pub variants: Vec<ParsedVariant>,
    pub methods: Vec<ParsedMethod>,
}

/// Model of a parsed declaration.
pub struct ParsedEnumM {
    pub attrs: Seq<AttrM>,
    pub vis: Seq<TokM>,
    pub ident: Seq<char>,
    pub generics: Seq<TypeParamM>,
    pub variants: Seq<ParsedVariantM>,
    pub methods: Seq<ParsedMethodM>,
}

impl View for ParsedEnum {
    type V = ParsedEnumM;

    open spec fn view(&self) -> ParsedEnumM {
        ParsedEnumM {
            attrs: attrs_model(self.attrs@),
            vis: toks(self.vis@),
            ident: self.ident@,
            generics: self.generics@,
            variants: pvariants_model(self.variants@),
            methods: methods_model(self.methods@),
        }
    }
}

/// The end of a field or refinement type: the first comma or closing brace
/// outside all brackets; the text's end when none comes.
pub open spec fn ty_end(s: Seq<TokM>, i: int, da: int, dd: int) -> int
    decreases s.len() - i,
{
    if i < 0 || i >= s.len() {
        s.len() as int
    } else if da == 0 && dd == 0 && (s[i] == TokM::Comma || s[i] == TokM::RBrace) {
        i
    } else if s[i] == TokM::Lt {
        ty_end(s, i + 1, da + 1, dd)
    } else if s[i] == TokM::Gt {
        ty_end(
            s,
            i + 1,
            if da > 0 {
                da - 1
            } else {
                0
            },
            dd,
        )
    } else if s[i] == TokM::LParen || s[i] == TokM::LBracket || s[i] == TokM::LBrace {
        ty_end(s, i + 1, da, dd + 1)
    } else if s[i] == TokM::RParen || s[i] == TokM::RBracket || s[i] == TokM::RBrace {
        ty_end(
            s,
            i + 1,
            da,
            if dd > 0 {
                dd - 1
            } else {
                0
            },
        )
    } else {
        ty_end(s, i + 1, da, dd)
    }
}

/// The type scan never moves backwards and stays within the text.
pub proof fn lemma_ty_end_bounds(s: Seq<TokM>, i: int, da: int, dd: int)
    requires
        0 <= i <= s.len(),
    ensures
        i <= ty_end(s, i, da, dd) <= s.len(),
    decreases s.len() - i,
{
    if 0 <= i && i < s.len() {
        lemma_ty_end_bounds(s, i + 1, da + 1, dd);
        lemma_ty_end_bounds(
            s,
            i + 1,
            if da > 0 {
                da - 1
            } else {
                0
            },
            dd,
        );
        lemma_ty_end_bounds(s, i + 1, da, dd + 1);
        lemma_ty_end_bounds(
            s,
            i + 1,
            da,
            if dd > 0 {
                dd - 1
            } else {
                0
            },
        );
        lemma_ty_end_bounds(s, i + 1, da, dd);
    }
}

/// The end of a positional field type: the first comma or closing
/// parenthesis outside all brackets.
pub open spec fn tup_ty_end(s: Seq<TokM>, i: int, da: int, dd: int) -> int
    decreases s.len() - i,
{
    if i < 0 || i >= s.len() {
        s.len() as int
    } else if da == 0 && dd == 0 && (s[i] == TokM::Comma || s[i] == TokM::RParen) {
        i
    } else if s[i] == TokM::Lt {
        tup_ty_end(s, i + 1, da + 1, dd)
    } else if s[i] == TokM::Gt {
        tup_ty_end(
            s,
            i + 1,
            if da > 0 {
                da - 1
            } else {
                0
            },
            dd,
        )
    } else if s[i] == TokM::LParen || s[i] == TokM::LBracket || s[i] == TokM::LBrace {
        tup_ty_end(s, i + 1, da, dd + 1)
    } else if s[i] == TokM::RParen || s[i] == TokM::RBracket || s[i] == TokM::RBrace {
        tup_ty_end(
            s,
            i + 1,
            da,
            if dd > 0 {
                dd - 1
            } else {
                0
            },
        )
    } else {
        tup_ty_end(s, i + 1, da, dd)
    }
}

/// The tuple-type scan never moves backwards and stays within the text.
pub proof fn lemma_tup_ty_end_bounds(s: Seq<TokM>, i: int, da: int, dd: int)
    requires
        0 <= i <= s.len(),
    ensures
        i <= tup_ty_end(s, i, da, dd) <= s.len(),
    decreases s.len() - i,
{
    if 0 <= i && i < s.len() {
        lemma_tup_ty_end_bounds(s, i + 1, da + 1, dd);
        lemma_tup_ty_end_bounds(
            s,
            i + 1,
            if da > 0 {
                da - 1
            } else {
                0
            },
            dd,
        );
        lemma_tup_ty_end_bounds(s, i + 1, da, dd + 1);
        lemma_tup_ty_end_bounds(
            s,
            i + 1,
            da,
            if dd > 0 {
                dd - 1
            } else {
                0
            },
        );
        lemma_tup_ty_end_bounds(s, i + 1, da, dd);
    }
}

/// The end of an operation signature: the first opening brace outside
/// parentheses and brackets.
pub open spec fn sig_end(s: Seq<TokM>, i: int, dd: int) -> int
    decreases s.len() - i,
{
    if i < 0 || i >= s.len() {
        s.len() as int
    } else if dd == 0 && s[i] == TokM::LBrace {
        i
    } else if s[i] == TokM::LParen || s[i] == TokM::LBracket || s[i] == TokM::LBrace {
        sig_end(s, i + 1, dd + 1)
    } else if s[i] == TokM::RParen || s[i] == TokM::RBracket || s[i] == TokM::RBrace {
        sig_end(
            s,
            i + 1,
            if dd > 0 {
                dd - 1
            } else {
                0
            },
        )
    } else {
        sig_end(s, i + 1, dd)
    }
}

/// The signature scan never moves backwards and stays within the text.
pub proof fn lemma_sig_end_bounds(s: Seq<TokM>, i: int, dd: int)
    requires
        0 <= i <= s.len(),
    ensures
        i <= sig_end(s, i, dd) <= s.len(),
    decreases s.len() - i,
{
    if 0 <= i && i < s.len() {
        lemma_sig_end_bounds(s, i + 1, dd + 1);
        lemma_sig_end_bounds(
            s,
            i + 1,
            if dd > 0 {
                dd - 1
            } else {
                0
            },
        );
        lemma_sig_end_bounds(s, i + 1, dd);
    }
}

/// The end of an arm pattern: the arrow introducing the body, outside all
/// brackets.
pub open spec fn pat_end(s: Seq<TokM>, i: int, da: int, dd: int) -> int
    decreases s.len() - i,
{
    if i < 0 || i >= s.len() {
        s.len() as int
    } else if da == 0 && dd == 0 && s[i] == TokM::FatArrow {
        i
    } else if s[i] == TokM::Lt {
        pat_end(s, i + 1, da + 1, dd)
    } else if s[i] == TokM::Gt {
        pat_end(
            s,
            i + 1,
            if da > 0 {
                da - 1
            } else {
                0
            },
            dd,
        )
    } else if s[i] == TokM::LParen || s[i] == TokM::LBracket || s[i] == TokM::LBrace {
        pat_end(s, i + 1, da, dd + 1)
    } else if s[i] == TokM::RParen || s[i] == TokM::RBracket || s[i] == TokM::RBrace {
        pat_end(
            s,
            i + 1,
            da,
            if dd > 0 {
                dd - 1
            } else {
                0
            },
        )
    } else {
        pat_end(s, i + 1, da, dd)
    }
}

/// The pattern scan never moves backwards and stays within the text.
pub proof fn lemma_pat_end_bounds(s: Seq<TokM>, i: int, da: int, dd: int)
    requires
        0 <= i <= s.len(),
    ensures
        i <= pat_end(s, i, da, dd) <= s.len(),
    decreases s.len() - i,
{
    if 0 <= i && i < s.len() {
        lemma_pat_end_bounds(s, i + 1, da + 1, dd);
        lemma_pat_end_bounds(
            s,
            i + 1,
            if da > 0 {
                da - 1
            } else {
                0
            },
            dd,
        );
        lemma_pat_end_bounds(s, i + 1, da, dd + 1);
        lemma_pat_end_bounds(
            s,
            i + 1,
            da,
            if dd > 0 {
                dd - 1
            } else {
                0
            },
        );
        lemma_pat_end_bounds(s, i + 1, da, dd);
    }
}

/// The end of an arm body: the first comma or closing brace outside
/// parentheses, brackets and braces.
pub open spec fn body_end(s: Seq<TokM>, i: int, dd: int) -> int
    decreases s.len() - i,
{
    if i < 0 || i >= s.len() {
        s.len() as int
    } else if dd == 0 && (s[i] == TokM::Comma || s[i] == TokM::RBrace) {
        i
    } else if s[i] == TokM::LParen || s[i] == TokM::LBracket || s[i] == TokM::LBrace {
        body_end(s, i + 1, dd + 1)
    } else if s[i] == TokM::RParen || s[i] == TokM::RBracket || s[i] == TokM::RBrace {
        body_end(
            s,
            i + 1,
            if dd > 0 {
                dd - 1
            } else {
                0
            },
        )
    } else {
        body_end(s, i + 1, dd)
    }
}

/// The body scan never moves backwards and stays within the text.
pub proof fn lemma_body_end_bounds(s: Seq<TokM>, i: int, dd: int)
    requires
        0 <= i <= s.len(),
    ensures
        i <= body_end(s, i, dd) <= s.len(),
    decreases s.len() - i,
{
    if 0 <= i && i < s.len() {
        lemma_body_end_bounds(s, i + 1, dd + 1);
        lemma_body_end_bounds(
            s,
            i + 1,
            if dd > 0 {
                dd - 1
            } else {
                0
            },
        );
        lemma_body_end_bounds(s, i + 1, dd);
    }
}

/// One outer attribute: `#[name]` or `#[name(tokens)]`.
pub open spec fn p_attr(s: Seq<TokM>, i: int) -> Option<(AttrM, int)> {
    if !(0 <= i && i + 2 < s.len() && s[i] == TokM::Punct('#') && s[i + 1] == TokM::LBracket) {
        None
    } else {
        match s[i + 2] {
            TokM::Id(name) => {
                if i + 3 < s.len() && s[i + 3] == TokM::RBracket {
                    Some((AttrM { name, tokens: Seq::empty() }, i + 4))
                } else if i + 3 < s.len() && s[i + 3] == TokM::LParen {
                    let j = paren_end(s, i + 4, 1);
                    if j < 0 || !(j < s.len() && s[j] == TokM::RBracket) {
                        None
                    } else {
                        Some((AttrM { name, tokens: s.subrange(i + 4, j - 1) }, j + 1))
                    }
                } else {
                    None
                }
            },
            _ => None,
        }
    }
}

/// A parsed attribute ends after its opening position, within the text.
pub proof fn lemma_p_attr_bounds(s: Seq<TokM>, i: int)
    requires
        0 <= i <= s.len(),
    ensures
        p_attr(s, i) matches Some((_, j)) ==> i < j <= s.len(),
{
    if 0 <= i && i + 4 <= s.len() {
        lemma_paren_end_bounds(s, i + 4, 1);
    }
}

/// The outer attributes before an item, in order.
pub open spec fn p_attrs(s: Seq<TokM>, i: int, acc: Seq<AttrM>) -> Option<(Seq<AttrM>, int)>
    decreases s.len() - i,
    when 0 <= i
    via p_attrs_dec
{
    if 0 <= i && i < s.len() && s[i] == TokM::Punct('#') {
        match p_attr(s, i) {
            Some((a, j)) => p_attrs(s, j, acc.push(a)),
            None => None,
        }
    } else {
        Some((acc, i))
    }
}

#[via_fn]
proof fn p_attrs_dec(s: Seq<TokM>, i: int, acc: Seq<AttrM>) {
    if 0 <= i && i <= s.len() {
        lemma_p_attr_bounds(s, i);
    }
}

/// A parsed attribute list never moves backwards and stays within the text.
pub proof fn lemma_p_attrs_bounds(s: Seq<TokM>, i: int, acc: Seq<AttrM>)
    requires
        0 <= i <= s.len(),
    ensures
        p_attrs(s, i, acc) matches Some((_, j)) ==> i <= j <= s.len(),
    decreases s.len() - i,
{
    if 0 <= i && i < s.len() && s[i] == TokM::Punct('#') {
        lemma_p_attr_bounds(s, i);
        match p_attr(s, i) {
            Some((a, j)) => {
                lemma_p_attrs_bounds(s, j, acc.push(a));
            },
            None => {},
        }
    }
}

/// The named field list after its opening brace: `name: Type` pairs
/// separated by commas, closed by a brace.
pub open spec fn p_named_fields(s: Seq<TokM>, i: int, acc: Seq<NamedFieldM>) -> Option<
    (Seq<NamedFieldM>, int),
>
    decreases s.len() - i,
    when 0 <= i
    via p_named_fields_dec
{
    if !(0 <= i && i < s.len()) {
        None
    } else if s[i] == TokM::RBrace {
        Some((acc, i + 1))
    } else {
        match s[i] {
            TokM::Id(name) => {
                if i + 1 < s.len() && s[i + 1] == TokM::Colon {
                    let j = ty_end(s, i + 2, 0, 0);
                    let f = NamedFieldM { name, ty: s.subrange(i + 2, j) };
                    if j < s.len() && s[j] == TokM::Comma {
                        p_named_fields(s, j + 1, acc.push(f))
                    } else if j < s.len() && s[j] == TokM::RBrace {
                        Some((acc.push(f), j + 1))
                    } else {
                        None
                    }
                } else {
                    None
                }
            },
            _ => None,
        }
    }
}

#[via_fn]
proof fn p_named_fields_dec(s: Seq<TokM>, i: int, acc: Seq<NamedFieldM>) {
    if 0 <= i && i + 2 <= s.len() {
        lemma_ty_end_bounds(s, i + 2, 0, 0);
    }
}

/// A parsed named-field list ends after its opening position.
pub proof fn lemma_p_named_fields_bounds(s: Seq<TokM>, i: int, acc: Seq<NamedFieldM>)
    requires
        0 <= i <= s.len(),
    ensures
        p_named_fields(s, i, acc) matches Some((_, j)) ==> i < j <= s.len(),
    decreases s.len() - i,
{
    if 0 <= i && i < s.len() {
        match s[i] {
            TokM::Id(name) => {
                if i + 1 < s.len() && s[i + 1] == TokM::Colon {
                    lemma_ty_end_bounds(s, i + 2, 0, 0);
                    let j = ty_end(s, i + 2, 0, 0);
                    let f = NamedFieldM { name, ty: s.subrange(i + 2, j) };
                    if j < s.len() && s[j] == TokM::Comma {
                        lemma_p_named_fields_bounds(s, j + 1, acc.push(f));
                    }
                }
            },
            _ => {},
        }
    }
}

/// The positional type list after its opening parenthesis: types separated
/// by commas, closed by a parenthesis.
pub open spec fn p_tuple_tys(s: Seq<TokM>, i: int, acc: Seq<Seq<TokM>>) -> Option<
    (Seq<Seq<TokM>>, int),
>
    decreases s.len() - i,
    when 0 <= i
    via p_tuple_tys_dec
{
    if !(0 <= i && i < s.len()) {
        None
    } else if s[i] == TokM::RParen {
        Some((acc, i + 1))
    } else {
        let j = tup_ty_end(s, i, 0, 0);
        let ty = s.subrange(i, j);
        if j < s.len() && s[j] == TokM::Comma {
            p_tuple_tys(s, j + 1, acc.push(ty))
        } else if j < s.len() && s[j] == TokM::RParen {
            Some((acc.push(ty), j + 1))
        } else {
            None
        }
    }
}

#[via_fn]
proof fn p_tuple_tys_dec(s: Seq<TokM>, i: int, acc: Seq<Seq<TokM>>) {
    if 0 <= i && i <= s.len() {
        lemma_tup_ty_end_bounds(s, i, 0, 0);
    }
}

/// A parsed positional type list ends after its opening position.
pub proof fn lemma_p_tuple_tys_bounds(s: Seq<TokM>, i: int, acc: Seq<Seq<TokM>>)
    requires
        0 <= i <= s.len(),
    ensures
        p_tuple_tys(s, i, acc) matches Some((_, j)) ==> i < j <= s.len(),
    decreases s.len() - i,
{
    if 0 <= i && i < s.len() && s[i] != TokM::RParen {
        lemma_tup_ty_end_bounds(s, i, 0, 0);
        let j = tup_ty_end(s, i, 0, 0);
        let ty = s.subrange(i, j);
        if j < s.len() && s[j] == TokM::Comma {
            lemma_p_tuple_tys_bounds(s, j + 1, acc.push(ty));
        }
    }
}

/// A variant's field list: named in braces, positional in parentheses, or
/// none at all.
pub open spec fn p_fields(s: Seq<TokM>, i: int) -> Option<(FieldsM, int)> {
    if 0 <= i && i < s.len() && s[i] == TokM::LBrace {
        match p_named_fields(s, i + 1, Seq::empty()) {
            Some((fs, j)) => Some((FieldsM::Named(fs), j)),
            None => None,
        }
    } else if 0 <= i && i < s.len() && s[i] == TokM::LParen {
        match p_tuple_tys(s, i + 1, Seq::empty()) {
            Some((ts, j)) => Some((FieldsM::Unnamed(ts), j)),
            None => None,
        }
    } else {
        Some((FieldsM::Unit, i))
    }
}

/// A parsed field list never moves backwards and stays within the text.
pub proof fn lemma_p_fields_bounds(s: Seq<TokM>, i: int)
    requires
        0 <= i <= s.len(),
    ensures
        p_fields(s, i) matches Some((_, j)) ==> i <= j <= s.len(),
{
    if 0 <= i && i < s.len() && s[i] == TokM::LBrace {
        lemma_p_named_fields_bounds(s, i + 1, Seq::empty());
    } else if 0 <= i && i < s.len() && s[i] == TokM::LParen {
        lemma_p_tuple_tys_bounds(s, i + 1, Seq::empty());
    }
}

/// One variant of the flat syntax: attributes, a name, optional generics,
/// an optional field list, and an optional refinement type after a colon.
pub open spec fn p_pvariant(s: Seq<TokM>, i: int) -> Option<(ParsedVariantM, int)> {
    if !(0 <= i <= s.len()) {
        None
    } else {
        match p_attrs(s, i, Seq::empty()) {
            Some((attrs, a)) => {
                if a < s.len() {
                    match s[a] {
                        TokM::Id(ident) => {
                            match p_generics(s, a + 1) {
                                Some((gens, g)) => {
                                    match p_fields(s, g) {
                                        Some((flds, f)) => {
                                            if f < s.len() && s[f] == TokM::Colon {
                                                let j = ty_end(s, f + 1, 0, 0);
                                                Some(
                                                    (
                                                        ParsedVariantM {
                                                            attrs,
                                                            ident,
                                                            generics: gens,
                                                            fields: flds,
                                                            trait_type: Some(s.subrange(f + 1, j)),
                                                        },
                                                        j,
                                                    ),
                                                )
                                            } else {
                                                Some(
                                                    (
                                                        ParsedVariantM {
                                                            attrs,
                                                            ident,
                                                            generics: gens,
                                                            fields: flds,
                                                            trait_type: None,
                                                        },
                                                        f,
                                                    ),
                                                )
                                            }
                                        },
                                        None => None,
                                    }
                                },
                                None => None,
                            }
                        },
                        _ => None,
                    }
                } else {
                    None
                }
            },
            None => None,
        }
    }
}

/// A parsed variant ends after its opening position, within the text.
pub proof fn lemma_p_pvariant_bounds(s: Seq<TokM>, i: int)
    requires
        0 <= i <= s.len(),
    ensures
        p_pvariant(s, i) matches Some((_, j)) ==> i < j <= s.len(),
{
    lemma_p_attrs_bounds(s, i, Seq::empty());
    match p_attrs(s, i, Seq::empty()) {
        Some((attrs, a)) => {
            if a < s.len() {
                lemma_p_generics_bounds(s, a + 1);
                match p_generics(s, a + 1) {
                    Some((gens, g)) => {
                        lemma_p_fields_bounds(s, g);
                        match p_fields(s, g) {
                            Some((flds, f)) => {
                                if f + 1 <= s.len() {
                                    lemma_ty_end_bounds(s, f + 1, 0, 0);
                                }
                            },
                            None => {},
                        }
                    },
                    None => {},
                }
            }
        },
        None => {},
    }
}

/// The variant list of the flat syntax, ending at the closing brace; a
/// comma must separate variants.
pub open spec fn p_pvariants(s: Seq<TokM>, i: int, acc: Seq<ParsedVariantM>) -> Option<
    (Seq<ParsedVariantM>, int),
>
    decreases s.len() - i,
    when 0 <= i
    via p_pvariants_dec
{
    if !(0 <= i && i < s.len()) {
        None
    } else if s[i] == TokM::RBrace {
        Some((acc, i + 1))
    } else {
        match p_pvariant(s, i) {
            Some((v, j)) => {
                if j < s.len() && s[j] == TokM::RBrace {
                    Some((acc.push(v), j + 1))
                } else if j < s.len() && s[j] == TokM::Comma {
                    p_pvariants(s, j + 1, acc.push(v))
                } else {
                    None
                }
            },
            None => None,
        }
    }
}

#[via_fn]
proof fn p_pvariants_dec(s: Seq<TokM>, i: int, acc: Seq<ParsedVariantM>) {
    if 0 <= i && i <= s.len() {
        lemma_p_pvariant_bounds(s, i);
    }
}

/// The arm list of a shared operation, after its opening brace: each arm a
/// pattern, an arrow, and a body, separated by commas, closed by a brace.
pub open spec fn p_arms(s: Seq<TokM>, i: int, acc: Seq<MethodArmM>) -> Option<
    (Seq<MethodArmM>, int),
>
    decreases s.len() - i,
    when 0 <= i
    via p_arms_dec
{
    if !(0 <= i && i < s.len()) {
        None
    } else if s[i] == TokM::RBrace {
        Some((acc, i + 1))
    } else {
        let pe = pat_end(s, i, 0, 0);
        if !(pe < s.len() && s[pe] == TokM::FatArrow) {
            None
        } else {
            let be = body_end(s, pe + 1, 0);
            let arm = MethodArmM { pattern: s.subrange(i, pe), body: s.subrange(pe + 1, be) };
            if be < s.len() && s[be] == TokM::Comma {
                p_arms(s, be + 1, acc.push(arm))
            } else if be < s.len() && s[be] == TokM::RBrace {
                Some((acc.push(arm), be + 1))
            } else {
                None
            }
        }
    }
}

#[via_fn]
proof fn p_arms_dec(s: Seq<TokM>, i: int, acc: Seq<MethodArmM>) {
    if 0 <= i && i <= s.len() {
        lemma_pat_end_bounds(s, i, 0, 0);
        let pe = pat_end(s, i, 0, 0);
        if pe + 1 <= s.len() {
            lemma_body_end_bounds(s, pe + 1, 0);
        }
    }
}

/// A parsed arm list ends after its opening position, within the text.
pub proof fn lemma_p_arms_bounds(s: Seq<TokM>, i: int, acc: Seq<MethodArmM>)
    requires
        0 <= i <= s.len(),
    ensures
        p_arms(s, i, acc) matches Some((_, j)) ==> i < j <= s.len(),
    decreases s.len() - i,
{
    if 0 <= i && i < s.len() && s[i] != TokM::RBrace {
        lemma_pat_end_bounds(s, i, 0, 0);
        let pe = pat_end(s, i, 0, 0);
        if pe < s.len() && s[pe] == TokM::FatArrow {
            lemma_body_end_bounds(s, pe + 1, 0);
            let be = body_end(s, pe + 1, 0);
            let arm = MethodArmM { pattern: s.subrange(i, pe), body: s.subrange(pe + 1, be) };
            if be < s.len() && s[be] == TokM::Comma {
                lemma_p_arms_bounds(s, be + 1, acc.push(arm));
            }
        }
    }
}

/// One shared operation: its signature up to the opening brace, then its
/// arm list.
pub open spec fn p_method(s: Seq<TokM>, i: int) -> Option<(ParsedMethodM, int)> {
    if !(0 <= i <= s.len()) {
        None
    } else {
        let se = sig_end(s, i, 0);
        if !(se < s.len() && s[se] == TokM::LBrace) {
            None
        } else {
            match p_arms(s, se + 1, Seq::empty()) {
                Some((arms, j)) => Some((ParsedMethodM { sig: s.subrange(i, se), arms }, j)),
                None => None,
            }
        }
    }
}

/// A parsed operation ends after its opening position, within the text.
pub proof fn lemma_p_method_bounds(s: Seq<TokM>, i: int)
    requires
        0 <= i <= s.len(),
    ensures
        p_method(s, i) matches Some((_, j)) ==> i < j <= s.len(),
{
    lemma_sig_end_bounds(s, i, 0);
    let se = sig_end(s, i, 0);
    if se < s.len() && s[se] == TokM::LBrace {
        lemma_p_arms_bounds(s, se + 1, Seq::empty());
    }
}

/// The shared operations after the variant list, running to the end of the
/// declaration.
pub open spec fn p_methods(s: Seq<TokM>, i: int, acc: Seq<ParsedMethodM>) -> Option<
    (Seq<ParsedMethodM>, int),
>
    decreases s.len() - i,
    when 0 <= i
    via p_methods_dec
{
    if !(0 <= i && i < s.len()) {
        Some((acc, i))
    } else {
        match p_method(s, i) {
            Some((m, j)) => p_methods(s, j, acc.push(m)),
            None => None,
        }
    }
}

#[via_fn]
proof fn p_methods_dec(s: Seq<TokM>, i: int, acc: Seq<ParsedMethodM>) {
    if 0 <= i && i <= s.len() {
        lemma_p_method_bounds(s, i);
    }
}

/// The whole flat declaration: attributes, visibility, the `enum` or
/// `trait` keyword, the union's name and parameters, the braced variant
/// list, and any shared operations, consuming the whole text.
pub open spec fn p_parsed_enum(s: Seq<TokM>) -> Option<ParsedEnumM> {
    match p_attrs(s, 0, Seq::empty()) {
        Some((attrs, a)) => {
            let ve = vis_end(s, a);
            if ve < 0 || ve >= s.len() || !(s[ve] == TokM::Id("enum"@) || s[ve] == TokM::Id(
                "trait"@,
            )) {
                None
            } else if !(ve + 1 < s.len()) {
                None
            } else {
                match s[ve + 1] {
                    TokM::Id(name) => {
                        match p_generics(s, ve + 2) {
                            Some((gens, gi)) => {
                                if gi < s.len() && s[gi] == TokM::LBrace {
                                    match p_pvariants(s, gi + 1, Seq::empty()) {
                                        Some((vars, vj)) => {
                                            match p_methods(s, vj, Seq::empty()) {
                                                Some((methods, end)) => {
                                                    if end == s.len() {
                                                        Some(
                                                            ParsedEnumM {
                                                                attrs,
                                                                vis: s.subrange(a, ve),
                                                                ident: name,
                                                                generics: gens,
                                                                variants: vars,
                                                                methods,
                                                            },
                                                        )
                                                    } else {
                                                        None
                                                    }
                                                },
                                                None => None,
                                            }
                                        },
                                        None => None,
                                    }
                                } else {
                                    None
                                }
                            },
                            None => None,
                        }
                    },
                    _ => None,
                }
            }
        },
        None => None,
    }
}

/// Scans to the end of a field or refinement type.
fn scan_ty_end(ts: &Vec<Tok>, i: usize) -> (r: usize)
    requires
        i <= ts@.len(),
    ensures
        r as int == ty_end(toks(ts@), i as int, 0, 0),
        i <= r <= ts@.len(),
{
    let ghost s = toks(ts@);
    let mut j = i;
    let mut da: usize = 0;
    let mut dd: usize = 0;
    while j < ts.len()
        invariant
            i <= j <= ts@.len(),
            da <= j,
            dd <= j,
            s == toks(ts@),
            ty_end(s, i as int, 0, 0) == ty_end(s, j as int, da as int, dd as int),
        decreases ts@.len() - j,
    {
        match &ts[j] {
            Tok::Comma => {
                if da == 0 && dd == 0 {
                    return j;
                }
            },
            Tok::RBrace => {
                if da == 0 && dd == 0 {
                    return j;
                }
                if dd > 0 {
                    dd -= 1;
                }
            },
            Tok::Lt => {
                da += 1;
            },
            Tok::Gt => {
                if da > 0 {
                    da -= 1;
                }
            },
            Tok::LParen | Tok::LBracket | Tok::LBrace => {
                dd += 1;
            },
            Tok::RParen | Tok::RBracket => {
                if dd > 0 {
                    dd -= 1;
                }
            },
            _ => {},
        }
        j += 1;
    }
    ts.len()
}

/// Scans to the end of a positional field type.
fn scan_tup_ty_end(ts: &Vec<Tok>, i: usize) -> (r: usize)
    requires
        i <= ts@.len(),
    ensures
        r as int == tup_ty_end(toks(ts@), i as int, 0, 0),
        i <= r <= ts@.len(),
{
    let ghost s = toks(ts@);
    let mut j = i;
    let mut da: usize = 0;
    let mut dd: usize = 0;
    while j < ts.len()
        invariant
            i <= j <= ts@.len(),
            da <= j,
            dd <= j,
            s == toks(ts@),
            tup_ty_end(s, i as int, 0, 0) == tup_ty_end(s, j as int, da as int, dd as int),
        decreases ts@.len() - j,
    {
        match &ts[j] {
            Tok::Comma => {
                if da == 0 && dd == 0 {
                    return j;
                }
            },
            Tok::RParen => {
                if da == 0 && dd == 0 {
                    return j;
                }
                if dd > 0 {
                    dd -= 1;
                }
            },
            Tok::Lt => {
                da += 1;
            },
            Tok::Gt => {
                if da > 0 {
                    da -= 1;
                }
            },
            Tok::LParen | Tok::LBracket | Tok::LBrace => {
                dd += 1;
            },
            Tok::RBracket | Tok::RBrace => {
                if dd > 0 {
                    dd -= 1;
                }
            },
            _ => {},
        }
        j += 1;
    }
    ts.len()
}

/// Scans to the opening brace ending an operation signature.
fn scan_sig_end(ts: &Vec<Tok>, i: usize) -> (r: usize)
    requires
        i <= ts@.len(),
    ensures
        r as int == sig_end(toks(ts@), i as int, 0),
        i <= r <= ts@.len(),
{
    let ghost s = toks(ts@);
    let mut j = i;
    let mut dd: usize = 0;
    while j < ts.len()
        invariant
            i <= j <= ts@.len(),
            dd <= j,
            s == toks(ts@),
            sig_end(s, i as int, 0) == sig_end(s, j as int, dd as int),
        decreases ts@.len() - j,
    {
        match &ts[j] {
            Tok::LBrace => {
                if dd == 0 {
                    return j;
                }
                dd += 1;
            },
            Tok::LParen | Tok::LBracket => {
                dd += 1;
            },
            Tok::RParen | Tok::RBracket | Tok::RBrace => {
                if dd > 0 {
                    dd -= 1;
                }
            },
            _ => {},
        }
        j += 1;
    }
    ts.len()
}

/// Scans to the arrow ending an arm pattern.
pub(crate) fn scan_pat_end(ts: &Vec<Tok>, i: usize) -> (r: usize)
    requires
        i <= ts@.len(),
    ensures
        r as int == pat_end(toks(ts@), i as int, 0, 0),
        i <= r <= ts@.len(),
{
    let ghost s = toks(ts@);
    let mut j = i;
    let mut da: usize = 0;
    let mut dd: usize = 0;
    while j < ts.len()
        invariant
            i <= j <= ts@.len(),
            da <= j,
            dd <= j,
            s == toks(ts@),
            pat_end(s, i as int, 0, 0) == pat_end(s, j as int, da as int, dd as int),
        decreases ts@.len() - j,
    {
        match &ts[j] {
            Tok::FatArrow => {
                if da == 0 && dd == 0 {
                    return j;
                }
            },
            Tok::Lt => {
                da += 1;
            },
            Tok::Gt => {
                if da > 0 {
                    da -= 1;
                }
            },
            Tok::LParen | Tok::LBracket | Tok::LBrace => {
                dd += 1;
            },
            Tok::RParen | Tok::RBracket | Tok::RBrace => {
                if dd > 0 {
                    dd -= 1;
                }
            },
            _ => {},
        }
        j += 1;
    }
    ts.len()
}

/// Scans to the comma or closing brace ending an arm body.
pub(crate) fn scan_body_end(ts: &Vec<Tok>, i: usize) -> (r: usize)
    requires
        i <= ts@.len(),
    ensures
        r as int == body_end(toks(ts@), i as int, 0),
        i <= r <= ts@.len(),
{
    let ghost s = toks(ts@);
    let mut j = i;
    let mut dd: usize = 0;
    while j < ts.len()
        invariant
            i <= j <= ts@.len(),
            dd <= j,
            s == toks(ts@),
            body_end(s, i as int, 0) == body_end(s, j as int, dd as int),
        decreases ts@.len() - j,
    {
        match &ts[j] {
            Tok::Comma => {
                if dd == 0 {
                    return j;
                }
            },
            Tok::RBrace => {
                if dd == 0 {
                    return j;
                }
                dd -= 1;
            },
            Tok::LParen | Tok::LBracket | Tok::LBrace => {
                dd += 1;
            },
            Tok::RParen | Tok::RBracket => {
                if dd > 0 {
                    dd -= 1;
                }
            },
            _ => {},
        }
        j += 1;
    }
    ts.len()
}

/// Reads one outer attribute.
fn parse_attr(ts: &Vec<Tok>, i: usize) -> (r: Result<(Attr, usize), ParseError>)
    requires
        i <= ts@.len(),
    ensures
        match r {
            Ok((a, j)) => p_attr(toks(ts@), i as int) == Some((a@, j as int)) && i < j
                <= ts@.len(),
            Err(_) => p_attr(toks(ts@), i as int) is None,
        },
{
    let ghost s = toks(ts@);
    proof {
        lemma_p_attr_bounds(s, i as int);
    }
    if !(ts.len() - i >= 3 && matches!(&ts[i], Tok::Punct('#')) && matches!(
        &ts[i + 1],
        Tok::LBracket,
    )) {
        return Err(ParseError { pos: i, expected: Expected::OpenDelim });
    }
    match &ts[i + 2] {
        Tok::Id(name) => {
            if i + 3 < ts.len() && matches!(&ts[i + 3], Tok::RBracket) {
                let a = Attr { name: name.clone(), tokens: Vec::new() };
                proof {
                    assert(toks(a.tokens@) =~= Seq::<TokM>::empty());
                }
                Ok((a, i + 4))
            } else if i + 3 < ts.len() && matches!(&ts[i + 3], Tok::LParen) {
                match crate::parser::scan_paren_end(ts, i + 4, 1) {
                    Some(j) => {
                        if j < ts.len() && matches!(&ts[j], Tok::RBracket) {
                            let a = Attr { name: name.clone(), tokens: sub_toks(ts, i + 4, j - 1) };
                            Ok((a, j + 1))
                        } else {
                            Err(ParseError { pos: j, expected: Expected::CloseDelim })
                        }
                    },
                    None => Err(ParseError { pos: i + 3, expected: Expected::CloseDelim }),
                }
            } else {
                Err(ParseError { pos: i + 3, expected: Expected::CloseDelim })
            }
        },
        _ => Err(ParseError { pos: i + 2, expected: Expected::Name }),
    }
}

/// Reads the outer attributes before an item.
fn parse_attrs(ts: &Vec<Tok>, i: usize, acc: Vec<Attr>) -> (r: Result<
    (Vec<Attr>, usize),
    ParseError,
>)
    requires
        i <= ts@.len(),
    ensures
        match r {
            Ok((attrs, j)) => p_attrs(toks(ts@), i as int, attrs_model(acc@)) == Some(
                (attrs_model(attrs@), j as int),
            ) && i <= j <= ts@.len(),
            Err(_) => p_attrs(toks(ts@), i as int, attrs_model(acc@)) is None,
        },
    decreases ts@.len() - i,
{
    if i < ts.len() && matches!(&ts[i], Tok::Punct('#')) {
        match parse_attr(ts, i) {
            Ok((a, j)) => {
                proof {
                    lemma_attrs_push(acc@, a);
                }
                let mut acc = acc;
                acc.push(a);
                parse_attrs(ts, j, acc)
            },
            Err(e) => Err(e),
        }
    } else {
        Ok((acc, i))
    }
}

/// Reads the named field list after its opening brace.
fn parse_named_fields(ts: &Vec<Tok>, i: usize, acc: Vec<NamedField>) -> (r: Result<
    (Vec<NamedField>, usize),
    ParseError,
>)
    requires
        i <= ts@.len(),
    ensures
        match r {
            Ok((fs, j)) => p_named_fields(toks(ts@), i as int, named_fields_model(acc@)) == Some(
                (named_fields_model(fs@), j as int),
            ) && i < j <= ts@.len(),
            Err(_) => p_named_fields(toks(ts@), i as int, named_fields_model(acc@)) is None,
        },
    decreases ts@.len() - i,
{
    let ghost s = toks(ts@);
    if i >= ts.len() {
        return Err(ParseError { pos: i, expected: Expected::CloseDelim });
    }
    if matches!(&ts[i], Tok::RBrace) {
        return Ok((acc, i + 1));
    }
    match &ts[i] {
        Tok::Id(name) => {
            if i + 1 < ts.len() && matches!(&ts[i + 1], Tok::Colon) {
                let j = scan_ty_end(ts, i + 2);
                let f = NamedField { name: name.clone(), ty: sub_toks(ts, i + 2, j) };
                let ghost fm = NamedFieldM { name: name@, ty: s.subrange(i + 2, j as int) };
                proof {
                    assert(f@ == fm);
                    lemma_named_fields_push(acc@, f);
                }
                let mut acc = acc;
                acc.push(f);
                if j < ts.len() && matches!(&ts[j], Tok::Comma) {
                    parse_named_fields(ts, j + 1, acc)
                } else if j < ts.len() && matches!(&ts[j], Tok::RBrace) {
                    Ok((acc, j + 1))
                } else {
                    Err(ParseError { pos: j, expected: Expected::Separator })
                }
            } else {
                Err(ParseError { pos: i + 1, expected: Expected::Colon })
            }
        },
        _ => Err(ParseError { pos: i, expected: Expected::Name }),
    }
}

/// Reads the positional type list after its opening parenthesis.
fn parse_tuple_tys(ts: &Vec<Tok>, i: usize, acc: Vec<Vec<Tok>>) -> (r: Result<
    (Vec<Vec<Tok>>, usize),
    ParseError,
>)
    requires
        i <= ts@.len(),
    ensures
        match r {
            Ok((tys, j)) => p_tuple_tys(toks(ts@), i as int, tys_model(acc@)) == Some(
                (tys_model(tys@), j as int),
            ) && i < j <= ts@.len(),
            Err(_) => p_tuple_tys(toks(ts@), i as int, tys_model(acc@)) is None,
        },
    decreases ts@.len() - i,
{
    let ghost s = toks(ts@);
    if i >= ts.len() {
        return Err(ParseError { pos: i, expected: Expected::CloseDelim });
    }
    if matches!(&ts[i], Tok::RParen) {
        return Ok((acc, i + 1));
    }
    let j = scan_tup_ty_end(ts, i);
    let ty = sub_toks(ts, i, j);
    proof {
        lemma_tys_push(acc@, ty);
    }
    let mut acc = acc;
    acc.push(ty);
    if j < ts.len() && matches!(&ts[j], Tok::Comma) {
        parse_tuple_tys(ts, j + 1, acc)
    } else if j < ts.len() && matches!(&ts[j], Tok::RParen) {
        Ok((acc, j + 1))
    } else {
        Err(ParseError { pos: j, expected: Expected::Separator })
    }
}

/// Reads a variant's field list.
fn parse_fields(ts: &Vec<Tok>, i: usize) -> (r: Result<(Fields, usize), ParseError>)
    requires
        i <= ts@.len(),
    ensures
        match r {
            Ok((f, j)) => p_fields(toks(ts@), i as int) == Some((f@, j as int)) && i <= j
                <= ts@.len(),
            Err(_) => p_fields(toks(ts@), i as int) is None,
        },
{
    if i < ts.len() && matches!(&ts[i], Tok::LBrace) {
        proof {
            assert(named_fields_model(Seq::<NamedField>::empty()) =~= Seq::<NamedFieldM>::empty());
        }
        match parse_named_fields(ts, i + 1, Vec::new()) {
            Ok((fs, j)) => Ok((Fields::Named(fs), j)),
            Err(e) => Err(e),
        }
    } else if i < ts.len() && matches!(&ts[i], Tok::LParen) {
        proof {
            assert(tys_model(Seq::<Vec<Tok>>::empty()) =~= Seq::<Seq<TokM>>::empty());
        }
        match parse_tuple_tys(ts, i + 1, Vec::new()) {
            Ok((tys, j)) => Ok((Fields::Unnamed(tys), j)),
            Err(e) => Err(e),
        }
    } else {
        Ok((Fields::Unit, i))
    }
}

/// Reads one variant of the flat syntax.
fn parse_enum_variant(ts: &Vec<Tok>, i: usize) -> (r: Result<(ParsedVariant, usize), ParseError>)
    requires
        i <= ts@.len(),
    ensures
        match r {
            Ok((v, j)) => p_pvariant(toks(ts@), i as int) == Some((v@, j as int)) && i < j
                <= ts@.len(),
            Err(_) => p_pvariant(toks(ts@), i as int) is None,
        },
{
    let ghost s = toks(ts@);
    proof {
        assert(attrs_model(Seq::<Attr>::empty()) =~= Seq::<AttrM>::empty());
        lemma_p_pvariant_bounds(s, i as int);
    }
    let (attrs, a) = match parse_attrs(ts, i, Vec::new()) {
        Ok(x) => x,
        Err(e) => {
            return Err(e);
        },
    };
    if a >= ts.len() {
        return Err(ParseError { pos: a, expected: Expected::Name });
    }
    let ident = match &ts[a] {
        Tok::Id(n) => n.clone(),
        _ => {
            return Err(ParseError { pos: a, expected: Expected::Name });
        },
    };
    let (gens, g) = match parse_generics(ts, a + 1) {
        Ok(x) => x,
        Err(e) => {
            return Err(e);
        },
    };
    let (flds, f) = match parse_fields(ts, g) {
        Ok(x) => x,
        Err(e) => {
            return Err(e);
        },
    };
    if f < ts.len() && matches!(&ts[f], Tok::Colon) {
        let j = scan_ty_end(ts, f + 1);
        let tt = sub_toks(ts, f + 1, j);
        let v = ParsedVariant { attrs, ident, generics: gens, fields: flds, trait_type: Some(tt) };
        Ok((v, j))
    } else {
        let v = ParsedVariant { attrs, ident, generics: gens, fields: flds, trait_type: None };
        Ok((v, f))
    }
}

/// Reads the variant list of the flat syntax, up to its closing brace.
fn parse_enum_variants(ts: &Vec<Tok>, i: usize, acc: Vec<ParsedVariant>) -> (r: Result<
    (Vec<ParsedVariant>, usize),
    ParseError,
>)
    requires
        i <= ts@.len(),
    ensures
        match r {
            Ok((vs, j)) => p_pvariants(toks(ts@), i as int, pvariants_model(acc@)) == Some(
                (pvariants_model(vs@), j as int),
            ) && i < j <= ts@.len(),
            Err(_) => p_pvariants(toks(ts@), i as int, pvariants_model(acc@)) is None,
        },
    decreases ts@.len() - i,
{
    if i >= ts.len() {
        return Err(ParseError { pos: i, expected: Expected::CloseDelim });
    }
    if matches!(&ts[i], Tok::RBrace) {
        return Ok((acc, i + 1));
    }
    match parse_enum_variant(ts, i) {
        Ok((v, j)) => {
            proof {
                lemma_pvariants_push(acc@, v);
            }
            let mut acc = acc;
            acc.push(v);
            if j < ts.len() && matches!(&ts[j], Tok::RBrace) {
                Ok((acc, j + 1))
            } else if j < ts.len() && matches!(&ts[j], Tok::Comma) {
                parse_enum_variants(ts, j + 1, acc)
            } else {
                Err(ParseError { pos: j, expected: Expected::Separator })
            }
        },
        Err(e) => Err(e),
    }
}

/// Reads the arm list of a shared operation, after its opening brace.
fn parse_arms(ts: &Vec<Tok>, i: usize, acc: Vec<MethodArm>) -> (r: Result<
    (Vec<MethodArm>, usize),
    ParseError,
>)
    requires
        i <= ts@.len(),
    ensures
        match r {
            Ok((arms, j)) => p_arms(toks(ts@), i as int, arms_model(acc@)) == Some(
                (arms_model(arms@), j as int),
            ) && i < j <= ts@.len(),
            Err(_) => p_arms(toks(ts@), i as int, arms_model(acc@)) is None,
        },
    decreases ts@.len() - i,
{
    let ghost s = toks(ts@);
    if i >= ts.len() {
        return Err(ParseError { pos: i, expected: Expected::CloseDelim });
    }
    if matches!(&ts[i], Tok::RBrace) {
        return Ok((acc, i + 1));
    }
    let pe = scan_pat_end(ts, i);
    if !(pe < ts.len() && matches!(&ts[pe], Tok::FatArrow)) {
        return Err(ParseError { pos: pe, expected: Expected::Arm });
    }
    let be = scan_body_end(ts, pe + 1);
    let arm = MethodArm { pattern: sub_toks(ts, i, pe), body: sub_toks(ts, pe + 1, be) };
    let ghost am = MethodArmM {
        pattern: s.subrange(i as int, pe as int),
        body: s.subrange(pe + 1, be as int),
    };
    proof {
        assert(arm@ == am);
        lemma_arms_push(acc@, arm);
    }
    let mut acc = acc;
    acc.push(arm);
    if be < ts.len() && matches!(&ts[be], Tok::Comma) {
        parse_arms(ts, be + 1, acc)
    } else if be < ts.len() && matches!(&ts[be], Tok::RBrace) {
        Ok((acc, be + 1))
    } else {
        Err(ParseError { pos: be, expected: Expected::Separator })
    }
}

/// Reads one shared operation: signature, then arms.
pub fn parse_method(ts: &Vec<Tok>, i: usize) -> (r: Result<(ParsedMethod, usize), ParseError>)
    requires
        i <= ts@.len(),
    ensures
        match r {
            Ok((m, j)) => p_method(toks(ts@), i as int) == Some((m@, j as int)) && i < j
                <= ts@.len(),
            Err(_) => p_method(toks(ts@), i as int) is None,
        },
{
    let ghost s = toks(ts@);
    let se = scan_sig_end(ts, i);
    if !(se < ts.len() && matches!(&ts[se], Tok::LBrace)) {
        return Err(ParseError { pos: se, expected: Expected::OpenDelim });
    }
    proof {
        assert(arms_model(Seq::<MethodArm>::empty()) =~= Seq::<MethodArmM>::empty());
    }
    match parse_arms(ts, se + 1, Vec::new()) {
        Ok((arms, j)) => {
            let m = ParsedMethod { sig: sub_toks(ts, i, se), arms };
            Ok((m, j))
        },
        Err(e) => Err(e),
    }
}

/// Reads the shared operations after the variant list.
fn parse_methods(ts: &Vec<Tok>, i: usize, acc: Vec<ParsedMethod>) -> (r: Result<
    (Vec<ParsedMethod>, usize),
    ParseError,
>)
    requires
        i <= ts@.len(),
    ensures
        match r {
            Ok((ms, j)) => p_methods(toks(ts@), i as int, methods_model(acc@)) == Some(
                (methods_model(ms@), j as int),
            ) && i <= j <= ts@.len(),
            Err(_) => p_methods(toks(ts@), i as int, methods_model(acc@)) is None,
        },
    decreases ts@.len() - i,
{
    if i >= ts.len() {
        return Ok((acc, i));
    }
    match parse_method(ts, i) {
        Ok((m, j)) => {
            proof {
                lemma_methods_push(acc@, m);
            }
            let mut acc = acc;
            acc.push(m);
            parse_methods(ts, j, acc)
        },
        Err(e) => Err(e),
    }
}

impl ParsedEnum {
    /// Parses a whole flat declaration, shared operations included, from its
    /// tokens.
    pub fn parse(ts: &Vec<Tok>) -> (r: Result<ParsedEnum, ParseError>)
        ensures
            match r {
                Ok(p) => p_parsed_enum(toks(ts@)) == Some(p@),
                Err(_) => p_parsed_enum(toks(ts@)) is None,
            },
    {
        let ghost s = toks(ts@);
        proof {
            assert(attrs_model(Seq::<Attr>::empty()) =~= Seq::<AttrM>::empty());
        }
        let (attrs, a) = match parse_attrs(ts, 0, Vec::new()) {
            Ok(x) => x,
            Err(e) => {
                return Err(e);
            },
        };
        let (vis, ve) = match parse_visibility(ts, a) {
            Ok(x) => x,
            Err(e) => {
                return Err(e);
            },
        };
        if !(ve < ts.len() && (tok_is_id(&ts[ve], "enum") || tok_is_id(&ts[ve], "trait"))) {
            return Err(ParseError { pos: ve, expected: Expected::Keyword });
        }
        if !(ve + 1 < ts.len()) {
            return Err(ParseError { pos: ve + 1, expected: Expected::Name });
        }
        let ident = match &ts[ve + 1] {
            Tok::Id(n) => n.clone(),
            _ => {
                return Err(ParseError { pos: ve + 1, expected: Expected::Name });
            },
        };
        let (gens, gi) = match parse_generics(ts, ve + 2) {
            Ok(x) => x,
            Err(e) => {
                return Err(e);
            },
        };
        if !(gi < ts.len() && matches!(&ts[gi], Tok::LBrace)) {
            return Err(ParseError { pos: gi, expected: Expected::OpenDelim });
        }
        proof {
            assert(pvariants_model(Seq::<ParsedVariant>::empty())
                =~= Seq::<ParsedVariantM>::empty());
        }
        let (variants, vj) = match parse_enum_variants(ts, gi + 1, Vec::new()) {
            Ok(x) => x,
            Err(e) => {
                return Err(e);
            },
        };
        proof {
            assert(methods_model(Seq::<ParsedMethod>::empty()) =~= Seq::<ParsedMethodM>::empty());
        }
        let (methods, end) = match parse_methods(ts, vj, Vec::new()) {
            Ok(x) => x,
            Err(e) => {
                return Err(e);
            },
        };
        if end != ts.len() {
            return Err(ParseError { pos: end, expected: Expected::End });
        }
        Ok(ParsedEnum { attrs, vis, ident, generics: gens, variants, methods })
    }
}

} // verus!
