//! A sum-type compiler and pattern dispatcher.
//!
//! A textual declaration of a tagged union — flat, or indexed so that each
//! variant refines the union's own type parameters — is parsed, analyzed
//! for generic-parameter usage, and turned into a capability interface, one
//! record type per variant, and per-variant implementations of the shared
//! operations, their signatures rewritten under each variant's refinement.
//! A dispatch request over an opaque handle is lowered to an ordered probe
//! plan, and the runtime side of that plan — first matching probe wins,
//! extraction borrowed or ownership-transferring, a miss reported as an
//! exhaustiveness failure — is the `dispatch` module.

use vstd::prelude::*;

pub mod ast;
pub mod codegen;
pub mod dispatch;
pub mod enum_parser;
pub mod helpers;
pub mod lexer;
pub mod match_macro;
pub mod parser;
pub mod pattern_parser;
pub mod tok;
pub mod types;
pub mod type_analysis;
pub mod variant_gen;

verus! {

use crate::tok::{toks, Tok, TokM};
use crate::ast::{clone_toks, tys_model, GenericsDecl};
use crate::helpers::{names_model, param_names, statically_bound, stripped};
use crate::lexer::{lex_spec, tokenize, LexError};
use crate::parser::ParseError;
use crate::enum_parser::{p_parsed_enum, ParsedEnum, ParsedEnumM, ParsedMethodM, ParsedVariantM};
use crate::pattern_parser::{
    extract_generics_from_type_hint,
    extract_type_and_pattern,
    hint_generics,
    p_match_t,
    parse_match_t,
    tyname_end,
    MatchArmM,
};
use crate::codegen::{apply_type_hint_to_pattern, hinted};
use crate::variant_gen::{
    generate_variant_code,
    impl_generics_of,
    lemma_variant_codes_push,
    method_impls_of,
    struct_generics_of,
    trait_type_of,
    variant_codes_model,
    VariantCode,
    VariantCodeM,
};

/// Why an expansion failed: the text could not be tokenized, or the tokens
/// did not match the grammar.
#[derive(Debug)]
pub enum ExpandError {
    Lex(LexError),
    Parse(ParseError),
}

/// Everything generated from a flat declaration: the shared interface (its
/// visibility, name, parameters and operation signatures) and, per variant,
/// one record type with one implementation block.
pub struct GeneratedCode {
    pub trait_vis: Vec<Tok>,
    pub trait_name: String,
    pub trait_generics: GenericsDecl,
    pub method_sigs: Vec<Vec<Tok>>,
    pub variants: Vec<VariantCode>,
}

/// What generation must make of one variant: its record under the minimized
/// parameter list, and its single implementation block against its
/// applicable interface, holding the substituted operation bodies.
pub open spec fn variant_code_ok(vc: VariantCodeM, v: ParsedVariantM, p: ParsedEnumM) -> bool {
    let vgs = statically_bound(v.generics);
    let ep = statically_bound(p.generics);
    let tt = trait_type_of(v, p.ident, param_names(ep));
    &&& vc.record.name == v.ident
    &&& vc.record.vis == p.vis
    &&& vc.record.fields == v.fields
    &&& vc.record.generics == struct_generics_of(vgs, ep, v.fields)
    &&& vc.impl_block.generics == impl_generics_of(vgs, ep, v.fields, tt)
    &&& vc.impl_block.trait_type == tt
    &&& vc.impl_block.self_name == v.ident
    &&& vc.impl_block.self_params == param_names(struct_generics_of(vgs, ep, v.fields))
    &&& vc.impl_block.methods == method_impls_of(
        p.methods,
        0,
        v.ident,
        tt,
        param_names(ep),
        Seq::empty(),
    )
}

/// Expand a flat union declaration: parse it and generate the interface and
/// the per-variant code.  For a union with N variants the result holds
/// exactly N record types and exactly one implementation block per variant.
pub fn type_enum(src: &str) -> (r: Result<GeneratedCode, ExpandError>)
    ensures
        match r {
            Ok(g) => lex_spec(src@) matches Some(ts) && p_parsed_enum(ts) matches Some(pm)
                && g.trait_name@ == pm.ident && toks(g.trait_vis@) == pm.vis && g.trait_generics@
                == statically_bound(pm.generics) && tys_model(g.method_sigs@)
                == pm.methods.map_values(|m: ParsedMethodM| m.sig) && variant_codes_model(
                g.variants@,
            ).len() == pm.variants.len() && (forall|i: int|
                0 <= i < pm.variants.len() ==> variant_code_ok(
                    variant_codes_model(g.variants@)[i],
                    pm.variants[i],
                    pm,
                )),
            Err(_) => match lex_spec(src@) {
                Some(ts) => p_parsed_enum(ts) is None,
                None => true,
            },
        },
{
    let ts = match tokenize(src) {
        Ok(ts) => ts,
        Err(e) => {
            return Err(ExpandError::Lex(e));
        },
    };
    let parsed = match ParsedEnum::parse(&ts) {
        Ok(p) => p,
        Err(e) => {
            return Err(ExpandError::Parse(e));
        },
    };
    let ghost pm = parsed@;
    let generics_with_static = crate::helpers::add_static_bounds(&parsed.generics);
    let params_ordered = crate::helpers::collect_ordered_type_params(&generics_with_static);
    proof {
        assert(names_model(params_ordered@) == param_names(generics_with_static@));
    }
    let mut sigs: Vec<Vec<Tok>> = Vec::new();
    let mut i: usize = 0;
    while i < parsed.methods.len()
        invariant
            i <= parsed.methods@.len(),
            pm == parsed@,
            tys_model(sigs@) =~= pm.methods.map_values(|m: ParsedMethodM| m.sig).subrange(
                0,
                i as int,
            ),
        decreases parsed.methods@.len() - i,
    {
        let sig = clone_toks(&parsed.methods[i].sig);
        proof {
            crate::ast::lemma_tys_push(sigs@, sig);
            assert(pm.methods[i as int] == parsed.methods@[i as int]@);
        }
        sigs.push(sig);
        i += 1;
    }
    proof {
        let m = pm.methods.map_values(|m: ParsedMethodM| m.sig);
        assert(m.subrange(0, m.len() as int) =~= m);
    }
    let mut variants: Vec<VariantCode> = Vec::new();
    let mut j: usize = 0;
    while j < parsed.variants.len()
        invariant
            j <= parsed.variants@.len(),
            pm == parsed@,
            generics_with_static@ == statically_bound(pm.generics),
            names_model(params_ordered@) == param_names(generics_with_static@),
            variant_codes_model(variants@).len() == j,
            forall|k: int|
                0 <= k < j ==> variant_code_ok(
                    variant_codes_model(variants@)[k],
                    pm.variants[k],
                    pm,
                ),
        decreases parsed.variants@.len() - j,
    {
        let vc = generate_variant_code(
            &parsed.variants[j],
            &parsed.methods,
            &generics_with_static,
            &params_ordered,
            &params_ordered,
            &parsed.vis,
            &parsed.ident,
        );
        proof {
            assert(pm.variants[j as int] == parsed.variants@[j as int]@);
            assert(crate::enum_parser::methods_model(parsed.methods@) == pm.methods);
            assert(variant_code_ok(vc@, pm.variants[j as int], pm));
            lemma_variant_codes_push(variants@, vc);
        }
        variants.push(vc);
        j += 1;
    }
    Ok(
        GeneratedCode {
            trait_vis: clone_toks(&parsed.vis),
            trait_name: parsed.ident,
            trait_generics: generics_with_static,
            method_sigs: sigs,
            variants,
        },
    )
}

/// One probe of a lowered typed dispatch: the record type to test the
/// handle's runtime identity against (hint arguments applied), the cleaned
/// pattern that extracts the fields, and the arm's body.
pub struct TypedProbe {
    pub probe_ty: Vec<Tok>,
    pub pattern: Vec<Tok>,
    pub body: Vec<Tok>,
}

/// Model of a typed probe.
pub struct TypedProbeM {
    pub probe_ty: Seq<TokM>,
    pub pattern: Seq<TokM>,
    pub body: Seq<TokM>,
}

impl View for TypedProbe {
    type V = TypedProbeM;

    open spec fn view(&self) -> TypedProbeM {
        TypedProbeM {
            probe_ty: toks(self.probe_ty@),
            pattern: toks(self.pattern@),
            body: toks(self.body@),
        }
    }
}

/// Model of a typed probe list.
pub open spec fn typed_probes_model(v: Seq<TypedProbe>) -> Seq<TypedProbeM> {
    v.map_values(|p: TypedProbe| p@)
}

/// Pushing a probe extends the model by its view.
pub proof fn lemma_typed_probes_push(v: Seq<TypedProbe>, p: TypedProbe)
    ensures
        typed_probes_model(v.push(p)) =~= typed_probes_model(v).push(p@),
{
}

/// What lowering one arm of a typed dispatch yields.
pub open spec fn typed_probe_of(arm: MatchArmM, hint: Option<Seq<TokM>>) -> TypedProbeM {
    let hg = match hint {
        Some(h) => hint_generics(h),
        None => None,
    };
    TypedProbeM {
        probe_ty: hinted(arm.pattern.subrange(0, tyname_end(arm.pattern, 0, 0)), hg),
        pattern: stripped(arm.pattern),
        body: arm.body,
    }
}

/// A lowered typed dispatch: the mode, the handle expression, the optional
/// type hint, and one probe per arm, in arm order.
pub struct MatchPlan {
    pub is_move: bool,
    pub expr: Vec<Tok>,
    pub type_hint: Option<Vec<Tok>>,
    pub probes: Vec<TypedProbe>,
}

/// Expand a dispatch request over trait-object handles: parse it and lower
/// it to one identity probe per arm, in arm order; the first structurally
/// matching probe wins at runtime.
pub fn match_t(src: &str) -> (r: Result<MatchPlan, ExpandError>)
    ensures
        match r {
            Ok(plan) => lex_spec(src@) matches Some(ts) && p_match_t(ts) matches Some(m)
                && plan.is_move == m.is_move && toks(plan.expr@) == m.expr && (match plan.type_hint {
                Some(h) => m.type_hint == Some(toks(h@)),
                None => m.type_hint is None,
            }) && typed_probes_model(plan.probes@).len() == m.arms.len() && (forall|i: int|
                0 <= i < m.arms.len() ==> typed_probes_model(plan.probes@)[i] == typed_probe_of(
                    m.arms[i],
                    m.type_hint,
                )),
            Err(_) => match lex_spec(src@) {
                Some(ts) => p_match_t(ts) is None,
                None => true,
            },
        },
{
    let ts = match tokenize(src) {
        Ok(ts) => ts,
        Err(e) => {
            return Err(ExpandError::Lex(e));
        },
    };
    let input = match parse_match_t(&ts) {
        Ok(m) => m,
        Err(e) => {
            return Err(ExpandError::Parse(e));
        },
    };
    let ghost m = input@;
    let hint_gens: Option<Vec<Tok>> = match &input.type_hint {
        Some(h) => extract_generics_from_type_hint(h),
        None => None,
    };
    let mut probes: Vec<TypedProbe> = Vec::new();
    let mut i: usize = 0;
    while i < input.arms.len()
        invariant
            i <= input.arms@.len(),
            m == input@,
            match hint_gens {
                Some(hg) => m.type_hint matches Some(h) && hint_generics(h) == Some(toks(hg@)),
                None => match m.type_hint {
                    Some(h) => hint_generics(h) is None,
                    None => true,
                },
            },
            typed_probes_model(probes@).len() == i,
            forall|k: int|
                0 <= k < i ==> typed_probes_model(probes@)[k] == typed_probe_of(
                    m.arms[k],
                    m.type_hint,
                ),
        decreases input.arms@.len() - i,
    {
        let arm = &input.arms[i];
        let ghost am = m.arms[i as int];
        proof {
            assert(am == input.arms@[i as int]@);
        }
        let (name, cleaned) = extract_type_and_pattern(&arm.pattern);
        let probe_ty = apply_type_hint_to_pattern(&name, &hint_gens);
        let probe = TypedProbe { probe_ty, pattern: cleaned, body: clone_toks(&arm.body) };
        proof {
            assert(probe@ == typed_probe_of(am, m.type_hint));
            lemma_typed_probes_push(probes@, probe);
        }
        probes.push(probe);
        i += 1;
    }
    Ok(MatchPlan { is_move: input.is_move, expr: input.expr, type_hint: input.type_hint, probes })
}

} // verus!
