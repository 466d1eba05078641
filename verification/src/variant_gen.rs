//! Generation for the flat declaration style: one record type per variant,
//! and one implementation block per variant holding the substituted shared
//! operations.

use vstd::prelude::*;

verus! {

use crate::tok::{lemma_toks_push, toks, tok_is_id, Tok, TokM};
use crate::ast::{
    clone_toks,
    named_fields_model,
    params_model,
    tys_model,
    Fields,
    FieldsM,
    GenericsDecl,
    NamedField,
    TypeParamM,
};
use crate::helpers::{
    add_static_bounds,
    collect_ordered_type_params,
    contains_name,
    merge_generics,
    merge_keeps,
    merge_scan,
    merged_generics,
    names_model,
    param_names,
    strip_pattern_generics,
    stripped,
    substitute_type_params,
    substituted,
};
use crate::type_analysis::{
    collect_all_type_param_names,
    collect_variant_type_params,
    extract_trait_type_from_attrs,
    extract_used_type_params,
    fields_use_param,
    impl_trait_attr_from,
    names_contain,
    uses_param,
};
use crate::enum_parser::{
    arms_model,
    methods_model,
    MethodArmM,
    ParsedMethod,
    ParsedMethodM,
    ParsedVariant,
    ParsedVariantM,
};

/// One generated record type: a struct per variant.
pub struct RecordDef {
    pub vis: Vec<Tok>,
    pub name: String,
    pub generics: GenericsDecl,
    pub fields: Fields,
}

/// Model of a generated record.
pub struct RecordDefM {
    pub vis: Seq<TokM>,
    pub name: Seq<char>,
    pub generics: Seq<TypeParamM>,
    pub fields: FieldsM,
}

impl View for RecordDef {
    type V = RecordDefM;

    open spec fn view(&self) -> RecordDefM {
        RecordDefM {
            vis: toks(self.vis@),
            name: self.name@,
            generics: self.generics@,
            fields: self.fields@,
        }
    }
}

/// One generated operation body: the substituted signature, the arm's
/// cleaned pattern, its body, and whether the receiver is consuming.
pub struct MethodImpl {
    pub sig: Vec<Tok>,
    pub pattern: Vec<Tok>,
    pub body: Vec<Tok>,
    pub boxed_receiver: bool,
}

/// Model of a generated operation body.
pub struct MethodImplM {
    pub sig: Seq<TokM>,
    pub pattern: Seq<TokM>,
    pub body: Seq<TokM>,
    pub boxed_receiver: bool,
}

impl View for MethodImpl {
    type V = MethodImplM;

    open spec fn view(&self) -> MethodImplM {
        MethodImplM {
            sig: toks(self.sig@),
            pattern: toks(self.pattern@),
            body: toks(self.body@),
            boxed_receiver: self.boxed_receiver,
        }
    }
}

/// Model of a generated operation list.
pub open spec fn method_impls_model(v: Seq<MethodImpl>) -> Seq<MethodImplM> {
    v.map_values(|m: MethodImpl| m@)
}

/// Pushing an operation body extends the model by its view.
pub proof fn lemma_method_impls_push(v: Seq<MethodImpl>, m: MethodImpl)
    ensures
        method_impls_model(v.push(m)) =~= method_impls_model(v).push(m@),
{
}

/// One generated implementation block: the variant's record implementing
/// its applicable interface, with the generated operation bodies.
pub struct ImplBlock {
    pub generics: GenericsDecl,
    pub trait_type: Vec<Tok>,
    pub self_name: String,
    pub self_params: Vec<String>,
    pub methods: Vec<MethodImpl>,
}

/// Model of a generated implementation block.
pub struct ImplBlockM {
    pub generics: Seq<TypeParamM>,
    pub trait_type: Seq<TokM>,
    pub self_name: Seq<char>,
    pub self_params: Seq<Seq<char>>,
    pub methods: Seq<MethodImplM>,
}

impl View for ImplBlock {
    type V = ImplBlockM;

    open spec fn view(&self) -> ImplBlockM {
        ImplBlockM {
            generics: self.generics@,
            trait_type: toks(self.trait_type@),
            self_name: self.self_name@,
            self_params: names_model(self.self_params@),
            methods: method_impls_model(self.methods@),
        }
    }
}

/// Everything generated for one variant: its record and its implementation
/// block.
pub struct VariantCode {
    pub record: RecordDef,
    pub impl_block: ImplBlock,
}

/// Model of a variant's generated code.
pub struct VariantCodeM {
    pub record: RecordDefM,
    pub impl_block: ImplBlockM,
}

impl View for VariantCode {
    type V = VariantCodeM;

    open spec fn view(&self) -> VariantCodeM {
        VariantCodeM { record: self.record@, impl_block: self.impl_block@ }
    }
}

/// Model of a list of generated variants.
pub open spec fn variant_codes_model(v: Seq<VariantCode>) -> Seq<VariantCodeM> {
    v.map_values(|c: VariantCode| c@)
}

/// Pushing a variant's code extends the model by its view.
pub proof fn lemma_variant_codes_push(v: Seq<VariantCode>, c: VariantCode)
    ensures
        variant_codes_model(v.push(c)) =~= variant_codes_model(v).push(c@),
{
}

/// Generate the record type for a variant: its own name and fields under
/// the merged parameter list.
pub fn generate_variant_struct(
    variant_name: &String,
    variant_generics: &GenericsDecl,
    fields: &Fields,
    vis: &Vec<Tok>,
) -> (r: RecordDef)
    ensures
        r@.name == variant_name@,
        r@.generics == variant_generics@,
        r@.fields == fields@,
        r@.vis == toks(vis@),
{
    RecordDef {
        vis: clone_toks(vis),
        name: variant_name.clone(),
        generics: variant_generics.clone(),
        fields: clone_fields(fields),
    }
}

/// Copies a field list.
fn clone_fields(fields: &Fields) -> (r: Fields)
    ensures
        r@ == fields@,
{
    match fields {
        Fields::Named(fs) => {
            let mut out: Vec<NamedField> = Vec::new();
            let mut i: usize = 0;
            while i < fs.len()
                invariant
                    i <= fs@.len(),
                    named_fields_model(out@) =~= named_fields_model(fs@).subrange(0, i as int),
                decreases fs@.len() - i,
            {
                let f = NamedField { name: fs[i].name.clone(), ty: clone_toks(&fs[i].ty) };
                proof {
                    crate::ast::lemma_named_fields_push(out@, f);
                    assert(f@ == named_fields_model(fs@)[i as int]);
                }
                out.push(f);
                i += 1;
            }
            proof {
                assert(named_fields_model(fs@).subrange(0, fs@.len() as int) =~= named_fields_model(
                    fs@,
                ));
            }
            Fields::Named(out)
        },
        Fields::Unnamed(ts) => {
            let mut out: Vec<Vec<Tok>> = Vec::new();
            let mut i: usize = 0;
            while i < ts.len()
                invariant
                    i <= ts@.len(),
                    tys_model(out@) =~= tys_model(ts@).subrange(0, i as int),
                decreases ts@.len() - i,
            {
                let t = clone_toks(&ts[i]);
                proof {
                    crate::ast::lemma_tys_push(out@, t);
                    assert(toks(t@) == tys_model(ts@)[i as int]);
                }
                out.push(t);
                i += 1;
            }
            proof {
                assert(tys_model(ts@).subrange(0, ts@.len() as int) =~= tys_model(ts@));
            }
            Fields::Unnamed(out)
        },
        Fields::Unit => Fields::Unit,
    }
}

/// The consuming-receiver marker: the tokens `self : Box < Self >`.
pub open spec fn boxed_self_toks() -> Seq<TokM> {
    seq![
        TokM::Id("self"@),
        TokM::Colon,
        TokM::Id("Box"@),
        TokM::Lt,
        TokM::Id("Self"@),
        TokM::Gt,
    ]
}

/// True when the signature takes its receiver by `self: Box<Self>`.
pub open spec fn is_boxed_self(sig: Seq<TokM>) -> bool {
    exists|k: int| 0 <= k && k + 6 <= sig.len() && #[trigger] sig.subrange(k, k + 6) == boxed_self_toks()
}

/// Decides whether the signature takes its receiver by `self: Box<Self>`.
fn sig_has_boxed_self(sig: &Vec<Tok>) -> (r: bool)
    ensures
        r == is_boxed_self(toks(sig@)),
{
    let ghost s = toks(sig@);
    if sig.len() < 6 {
        proof {
            assert(!is_boxed_self(s));
        }
        return false;
    }
    let mut k: usize = 0;
    while k <= sig.len() - 6
        invariant
            k + 6 <= sig@.len() + 1,
            sig@.len() >= 6,
            s == toks(sig@),
            forall|m: int| 0 <= m < k ==> #[trigger] s.subrange(m, m + 6) != boxed_self_toks(),
        decreases sig@.len() - k,
    {
        let hit = tok_is_id(&sig[k], "self") && matches!(&sig[k + 1], Tok::Colon) && tok_is_id(
            &sig[k + 2],
            "Box",
        ) && matches!(&sig[k + 3], Tok::Lt) && tok_is_id(&sig[k + 4], "Self") && matches!(
            &sig[k + 5],
            Tok::Gt,
        );
        proof {
            assert(s.subrange(k as int, k + 6).len() == 6);
            assert(s.subrange(k as int, k + 6)[0] == s[k as int]);
            assert(s.subrange(k as int, k + 6)[1] == s[k + 1]);
            assert(s.subrange(k as int, k + 6)[2] == s[k + 2]);
            assert(s.subrange(k as int, k + 6)[3] == s[k + 3]);
            assert(s.subrange(k as int, k + 6)[4] == s[k + 4]);
            assert(s.subrange(k as int, k + 6)[5] == s[k + 5]);
            if hit {
                assert(s.subrange(k as int, k + 6) =~= boxed_self_toks());
            } else {
                assert(s.subrange(k as int, k + 6) != boxed_self_toks());
            }
        }
        if hit {
            return true;
        }
        k += 1;
    }
    proof {
        assert forall|m: int| 0 <= m && m + 6 <= s.len() implies #[trigger] s.subrange(m, m + 6)
            != boxed_self_toks() by {
            assert(m < k);
        }
    }
    false
}

/// The first arm whose pattern names the variant, searching from `i`.
pub open spec fn first_matching_arm(arms: Seq<MethodArmM>, name: Seq<char>, i: int) -> Option<int>
    decreases arms.len() - i,
{
    if i < 0 || i >= arms.len() {
        None
    } else if uses_param(arms[i].pattern, name) {
        Some(i)
    } else {
        first_matching_arm(arms, name, i + 1)
    }
}

/// What generating one operation body for a variant yields: nothing when no
/// arm names the variant; otherwise the first such arm's body and cleaned
/// pattern under the signature rewritten by the variant's refinement.
pub open spec fn method_body_of(
    variant_name: Seq<char>,
    m: ParsedMethodM,
    trait_type: Seq<TokM>,
    enum_params: Seq<Seq<char>>,
) -> Option<MethodImplM> {
    match first_matching_arm(m.arms, variant_name, 0) {
        Some(i) => Some(
            MethodImplM {
                sig: substituted(m.sig, trait_type, enum_params),
                pattern: stripped(m.arms[i].pattern),
                body: m.arms[i].body,
                boxed_receiver: is_boxed_self(m.sig),
            },
        ),
        None => None,
    }
}

/// True when the pattern mentions the name.
fn pattern_mentions(p: &Vec<Tok>, name: &str) -> (r: bool)
    ensures
        r == uses_param(toks(p@), name@),
{
    let ghost s = toks(p@);
    let mut k: usize = 0;
    while k < p.len()
        invariant
            k <= p@.len(),
            s == toks(p@),
            forall|m: int| 0 <= m < k ==> s[m] != TokM::Id(name@),
        decreases p@.len() - k,
    {
        if tok_is_id(&p[k], name) {
            proof {
                assert(s[k as int] == TokM::Id(name@));
            }
            return true;
        }
        k += 1;
    }
    proof {
        assert(!uses_param(s, name@));
    }
    false
}

/// Generate one operation body for a variant: the first arm naming the
/// variant, under the signature substituted per its refinement type.
pub fn generate_method_body(
    variant: &ParsedVariant,
    method: &ParsedMethod,
    trait_type: &Vec<Tok>,
    all_type_params_ordered: &Vec<String>,
) -> (r: Option<MethodImpl>)
    ensures
        match r {
            Some(m) => method_body_of(
                variant@.ident,
                method@,
                toks(trait_type@),
                names_model(all_type_params_ordered@),
            ) == Some(m@),
            None => method_body_of(
                variant@.ident,
                method@,
                toks(trait_type@),
                names_model(all_type_params_ordered@),
            ) is None,
        },
{
    let ghost am = arms_model(method.arms@);
    let mut i: usize = 0;
    while i < method.arms.len()
        invariant
            i <= method.arms@.len(),
            am == arms_model(method.arms@),
            first_matching_arm(am, variant@.ident, 0) == first_matching_arm(
                am,
                variant@.ident,
                i as int,
            ),
        decreases method.arms@.len() - i,
    {
        if pattern_mentions(&method.arms[i].pattern, variant.ident.as_str()) {
            proof {
                assert(am[i as int] == method.arms@[i as int]@);
                assert(uses_param(am[i as int].pattern, variant@.ident));
                assert(first_matching_arm(am, variant@.ident, i as int) == Some(i as int));
            }
            let sig = substitute_type_params(&method.sig, trait_type, all_type_params_ordered);
            let pattern = strip_pattern_generics(&method.arms[i].pattern);
            let body = clone_toks(&method.arms[i].body);
            let boxed = sig_has_boxed_self(&method.sig);
            return Some(MethodImpl { sig, pattern, body, boxed_receiver: boxed });
        }
        proof {
            assert(am[i as int] == method.arms@[i as int]@);
            assert(!uses_param(am[i as int].pattern, variant@.ident));
        }
        i += 1;
    }
    None
}

/// The generated operation bodies of a variant: one per shared operation
/// that has an arm naming the variant, in operation order.
pub open spec fn method_impls_of(
    ms: Seq<ParsedMethodM>,
    i: int,
    variant_name: Seq<char>,
    trait_type: Seq<TokM>,
    enum_params: Seq<Seq<char>>,
    acc: Seq<MethodImplM>,
) -> Seq<MethodImplM>
    decreases ms.len() - i,
{
    if i < 0 || i >= ms.len() {
        acc
    } else {
        match method_body_of(variant_name, ms[i], trait_type, enum_params) {
            Some(m) => method_impls_of(ms, i + 1, variant_name, trait_type, enum_params, acc.push(m)),
            None => method_impls_of(ms, i + 1, variant_name, trait_type, enum_params, acc),
        }
    }
}

/// Generate the single implementation block of a variant: its record
/// implementing the applicable interface, holding one generated body per
/// shared operation that names the variant.
pub fn generate_combined_trait_impl(
    variant: &ParsedVariant,
    methods: &Vec<ParsedMethod>,
    impl_generics: &GenericsDecl,
    self_params: &Vec<String>,
    trait_type: &Vec<Tok>,
    all_type_params_ordered: &Vec<String>,
) -> (r: ImplBlock)
    ensures
        r@.generics == impl_generics@,
        r@.trait_type == toks(trait_type@),
        r@.self_name == variant@.ident,
        r@.self_params == names_model(self_params@),
        r@.methods == method_impls_of(
            methods_model(methods@),
            0,
            variant@.ident,
            toks(trait_type@),
            names_model(all_type_params_ordered@),
            Seq::empty(),
        ),
{
    let ghost mm = methods_model(methods@);
    let ghost vn = variant@.ident;
    let ghost tt = toks(trait_type@);
    let ghost ps = names_model(all_type_params_ordered@);
    let mut out: Vec<MethodImpl> = Vec::new();
    proof {
        assert(method_impls_model(out@) =~= Seq::<MethodImplM>::empty());
    }
    let mut i: usize = 0;
    while i < methods.len()
        invariant
            i <= methods@.len(),
            mm == methods_model(methods@),
            vn == variant@.ident,
            tt == toks(trait_type@),
            ps == names_model(all_type_params_ordered@),
            method_impls_of(mm, 0, vn, tt, ps, Seq::empty()) == method_impls_of(
                mm,
                i as int,
                vn,
                tt,
                ps,
                method_impls_model(out@),
            ),
        decreases methods@.len() - i,
    {
        proof {
            assert(mm[i as int] == methods@[i as int]@);
        }
        match generate_method_body(variant, &methods[i], trait_type, all_type_params_ordered) {
            Some(m) => {
                proof {
                    lemma_method_impls_push(out@, m);
                }
                out.push(m);
            },
            None => {},
        }
        i += 1;
    }
    ImplBlock {
        generics: impl_generics.clone(),
        trait_type: clone_toks(trait_type),
        self_name: variant.ident.clone(),
        self_params: clone_names(self_params),
        methods: out,
    }
}

/// Copies a name list.
fn clone_names(v: &Vec<String>) -> (r: Vec<String>)
    ensures
        names_model(r@) =~= names_model(v@),
{
    let mut out: Vec<String> = Vec::new();
    let mut i: usize = 0;
    while i < v.len()
        invariant
            i <= v@.len(),
            names_model(out@) =~= names_model(v@).subrange(0, i as int),
        decreases v@.len() - i,
    {
        let c = v[i].clone();
        proof {
            crate::helpers::lemma_names_push(out@, c);
        }
        out.push(c);
        i += 1;
    }
    proof {
        assert(names_model(v@).subrange(0, v@.len() as int) =~= names_model(v@));
    }
    out
}

/// Extract type parameters used in a trait type, e.g. `Term<bool>` uses
/// none and `Term<T>` uses `T`.
pub fn extract_type_params_from_trait(
    trait_type: &Vec<Tok>,
    all_type_params: &Vec<String>,
) -> (r: Vec<String>)
    ensures
        forall|n: Seq<char>|
            contains_name(names_model(r@), n) <==> (contains_name(
                names_model(all_type_params@),
                n,
            ) && uses_param(toks(trait_type@), n)),
{
    extract_used_type_params(trait_type, all_type_params)
}

/// Whether the generated record keeps an enum-level parameter: the
/// variant's fields mention it and no variant-local parameter shadows it.
pub open spec fn keep_for_struct(p: TypeParamM, vnames: Seq<Seq<char>>, f: FieldsM) -> bool {
    fields_use_param(f, p.name) && !contains_name(vnames, p.name)
}

/// The scan building a record's parameter list from the enum-level
/// parameters it keeps.
pub open spec fn struct_scan(
    ep: Seq<TypeParamM>,
    i: int,
    vnames: Seq<Seq<char>>,
    f: FieldsM,
    acc: Seq<TypeParamM>,
) -> Seq<TypeParamM>
    decreases ep.len() - i,
{
    if i < 0 || i >= ep.len() {
        acc
    } else if keep_for_struct(ep[i], vnames, f) {
        struct_scan(ep, i + 1, vnames, f, acc.push(ep[i]))
    } else {
        struct_scan(ep, i + 1, vnames, f, acc)
    }
}

/// The generated record's parameter list: the variant's own parameters
/// first, then every enum-level parameter that the variant's fields
/// mention and that no local parameter shadows — parameter minimization.
pub open spec fn struct_generics_of(
    vgs: Seq<TypeParamM>,
    ep: Seq<TypeParamM>,
    f: FieldsM,
) -> Seq<TypeParamM> {
    struct_scan(ep, 0, param_names(vgs), f, vgs)
}

/// Whether the implementation block keeps an enum-level parameter: the
/// variant's fields or its applicable interface type mention it, and no
/// local parameter shadows it.
pub open spec fn keep_for_impl(
    p: TypeParamM,
    vnames: Seq<Seq<char>>,
    f: FieldsM,
    tt: Seq<TokM>,
) -> bool {
    (fields_use_param(f, p.name) || uses_param(tt, p.name)) && !contains_name(vnames, p.name)
}

/// The scan building an implementation block's parameter list.
pub open spec fn impl_scan(
    ep: Seq<TypeParamM>,
    i: int,
    vnames: Seq<Seq<char>>,
    f: FieldsM,
    tt: Seq<TokM>,
    acc: Seq<TypeParamM>,
) -> Seq<TypeParamM>
    decreases ep.len() - i,
{
    if i < 0 || i >= ep.len() {
        acc
    } else if keep_for_impl(ep[i], vnames, f, tt) {
        impl_scan(ep, i + 1, vnames, f, tt, acc.push(ep[i]))
    } else {
        impl_scan(ep, i + 1, vnames, f, tt, acc)
    }
}

/// The implementation block's parameter list: the variant's own parameters
/// first, then every enum-level parameter used by the record or by the
/// interface type.
pub open spec fn impl_generics_of(
    vgs: Seq<TypeParamM>,
    ep: Seq<TypeParamM>,
    f: FieldsM,
    tt: Seq<TokM>,
) -> Seq<TypeParamM> {
    impl_scan(ep, 0, param_names(vgs), f, tt, vgs)
}

/// A name list's concatenation holds exactly the names of both parts.
proof fn lemma_contains_name_concat(a: Seq<Seq<char>>, b: Seq<Seq<char>>, n: Seq<char>)
    ensures
        contains_name(a + b, n) <==> (contains_name(a, n) || contains_name(b, n)),
{
    if contains_name(a, n) {
        let i = choose|i: int| 0 <= i < a.len() && a[i] == n;
        assert((a + b)[i] == n);
    }
    if contains_name(b, n) {
        let i = choose|i: int| 0 <= i < b.len() && b[i] == n;
        assert((a + b)[a.len() + i] == n);
    }
    if contains_name(a + b, n) {
        let i = choose|i: int| 0 <= i < (a + b).len() && (a + b)[i] == n;
        if i < a.len() {
            assert(a[i] == n);
        } else {
            assert(b[i - a.len()] == n);
        }
    }
}

/// Merging against a used-name list that holds an enum-level parameter's
/// name exactly when the fields mention it builds exactly the record's
/// parameter list.
proof fn lemma_merge_is_struct_scan(
    ep: Seq<TypeParamM>,
    i: int,
    vnames: Seq<Seq<char>>,
    used: Seq<Seq<char>>,
    f: FieldsM,
    acc: Seq<TypeParamM>,
)
    requires
        0 <= i <= ep.len(),
        forall|k: int|
            0 <= k < ep.len() ==> (contains_name(used, #[trigger] ep[k].name) <==> fields_use_param(
                f,
                ep[k].name,
            )),
    ensures
        merge_scan(ep, i, vnames, used, acc) == struct_scan(ep, i, vnames, f, acc),
    decreases ep.len() - i,
{
    if i < ep.len() {
        assert(merge_keeps(ep[i], vnames, used) == keep_for_struct(ep[i], vnames, f));
        if keep_for_struct(ep[i], vnames, f) {
            lemma_merge_is_struct_scan(ep, i + 1, vnames, used, f, acc.push(ep[i]));
        } else {
            lemma_merge_is_struct_scan(ep, i + 1, vnames, used, f, acc);
        }
    }
}

/// Merging against a used-name list that holds an enum-level parameter's
/// name exactly when the fields or the interface type mention it builds
/// exactly the implementation block's parameter list.
proof fn lemma_merge_is_impl_scan(
    ep: Seq<TypeParamM>,
    i: int,
    vnames: Seq<Seq<char>>,
    used: Seq<Seq<char>>,
    f: FieldsM,
    tt: Seq<TokM>,
    acc: Seq<TypeParamM>,
)
    requires
        0 <= i <= ep.len(),
        forall|k: int|
            0 <= k < ep.len() ==> (contains_name(used, #[trigger] ep[k].name) <==> (
            fields_use_param(f, ep[k].name) || uses_param(tt, ep[k].name))),
    ensures
        merge_scan(ep, i, vnames, used, acc) == impl_scan(ep, i, vnames, f, tt, acc),
    decreases ep.len() - i,
{
    if i < ep.len() {
        assert(merge_keeps(ep[i], vnames, used) == keep_for_impl(ep[i], vnames, f, tt));
        if keep_for_impl(ep[i], vnames, f, tt) {
            lemma_merge_is_impl_scan(ep, i + 1, vnames, used, f, tt, acc.push(ep[i]));
        } else {
            lemma_merge_is_impl_scan(ep, i + 1, vnames, used, f, tt, acc);
        }
    }
}

/// The comma-separated parameter names of the union's own interface type,
/// from position `i` on.
pub open spec fn joined_params(names: Seq<Seq<char>>, i: int) -> Seq<TokM>
    decreases names.len() - i,
{
    if i < 0 || i >= names.len() {
        Seq::empty()
    } else if i == names.len() - 1 {
        seq![TokM::Id(names[i])]
    } else {
        seq![TokM::Id(names[i]), TokM::Comma] + joined_params(names, i + 1)
    }
}

/// The base interface type of the union: its name applied to its own
/// parameters, e.g. `Either<A, E>`.
pub open spec fn default_trait_type(name: Seq<char>, params: Seq<Seq<char>>) -> Seq<TokM> {
    if params.len() == 0 {
        seq![TokM::Id(name)]
    } else {
        seq![TokM::Id(name), TokM::Lt] + joined_params(params, 0) + seq![TokM::Gt]
    }
}

/// The interface a variant's implementation block targets: its explicit
/// refinement type when one was written, else the type named by its
/// `impl_trait` attribute, else the union's own interface type.
pub open spec fn trait_type_of(
    v: ParsedVariantM,
    enum_name: Seq<char>,
    enum_param_names: Seq<Seq<char>>,
) -> Seq<TokM> {
    match v.trait_type {
        Some(tt) => tt,
        None => match impl_trait_attr_from(v.attrs, 0) {
            Some(i) => v.attrs[i].tokens,
            None => default_trait_type(enum_name, enum_param_names),
        },
    }
}

/// Builds the comma-separated parameter name tokens from position `i` on.
fn build_joined_params(names: &Vec<String>, i: usize) -> (r: Vec<Tok>)
    requires
        i <= names@.len(),
    ensures
        toks(r@) == joined_params(names_model(names@), i as int),
    decreases names@.len() - i,
{
    let ghost nm = names_model(names@);
    if i >= names.len() {
        let r: Vec<Tok> = Vec::new();
        proof {
            assert(toks(r@) =~= joined_params(nm, i as int));
        }
        return r;
    }
    let mut out: Vec<Tok> = Vec::new();
    let t = Tok::Id(names[i].clone());
    proof {
        assert(toks(out@) =~= Seq::<TokM>::empty());
        lemma_toks_push(out@, t);
    }
    out.push(t);
    if i + 1 >= names.len() {
        proof {
            assert(toks(out@) =~= joined_params(nm, i as int));
        }
        return out;
    }
    let c = Tok::Comma;
    proof {
        lemma_toks_push(out@, c);
    }
    out.push(c);
    let rest = build_joined_params(names, i + 1);
    crate::ast::extend_toks(&mut out, &rest);
    proof {
        assert(toks(out@) =~= joined_params(nm, i as int));
    }
    out
}

/// Builds the union's own interface type tokens.
fn build_default_trait_type(enum_name: &String, names: &Vec<String>) -> (r: Vec<Tok>)
    ensures
        toks(r@) == default_trait_type(enum_name@, names_model(names@)),
{
    let ghost nm = names_model(names@);
    let mut out: Vec<Tok> = Vec::new();
    let t = Tok::Id(enum_name.clone());
    proof {
        assert(toks(out@) =~= Seq::<TokM>::empty());
        lemma_toks_push(out@, t);
    }
    out.push(t);
    if names.len() == 0 {
        proof {
            assert(toks(out@) =~= default_trait_type(enum_name@, nm));
        }
        return out;
    }
    let lt = Tok::Lt;
    proof {
        lemma_toks_push(out@, lt);
    }
    out.push(lt);
    let args = build_joined_params(names, 0);
    crate::ast::extend_toks(&mut out, &args);
    let gt = Tok::Gt;
    proof {
        lemma_toks_push(out@, gt);
    }
    out.push(gt);
    proof {
        assert(toks(out@) =~= default_trait_type(enum_name@, nm));
    }
    out
}

/// Concatenates two name lists.
fn names_concat(a: &Vec<String>, b: &Vec<String>) -> (r: Vec<String>)
    ensures
        names_model(r@) =~= names_model(a@) + names_model(b@),
{
    let mut out = clone_names_pub(a);
    let mut i: usize = 0;
    while i < b.len()
        invariant
            i <= b@.len(),
            names_model(out@) =~= names_model(a@) + names_model(b@).subrange(0, i as int),
        decreases b@.len() - i,
    {
        let c = b[i].clone();
        proof {
            crate::helpers::lemma_names_push(out@, c);
        }
        out.push(c);
        i += 1;
    }
    proof {
        assert(names_model(b@).subrange(0, b@.len() as int) =~= names_model(b@));
    }
    out
}

/// Copies a name list.
fn clone_names_pub(v: &Vec<String>) -> (r: Vec<String>)
    ensures
        names_model(r@) =~= names_model(v@),
{
    clone_names(v)
}

/// Generate everything for one variant: its record under the minimized
/// parameter list, and its single implementation block against its
/// applicable interface, holding the substituted operation bodies.
pub fn generate_variant_code(
    variant: &ParsedVariant,
    methods: &Vec<ParsedMethod>,
    generics_with_static: &GenericsDecl,
    all_type_params: &Vec<String>,
    all_type_params_ordered: &Vec<String>,
    vis: &Vec<Tok>,
    enum_name: &String,
) -> (r: VariantCode)
    requires
        names_model(all_type_params@) == param_names(generics_with_static@),
        names_model(all_type_params_ordered@) == param_names(generics_with_static@),
    ensures
        ({
            let vgs = crate::helpers::statically_bound(variant@.generics);
            let ep = generics_with_static@;
            let tt = trait_type_of(variant@, enum_name@, param_names(ep));
            &&& r.record@.name == variant@.ident
            &&& r.record@.vis == toks(vis@)
            &&& r.record@.fields == variant@.fields
            &&& r.record@.generics == struct_generics_of(vgs, ep, variant@.fields)
            &&& r.impl_block@.generics == impl_generics_of(vgs, ep, variant@.fields, tt)
            &&& r.impl_block@.trait_type == tt
            &&& r.impl_block@.self_name == variant@.ident
            &&& r.impl_block@.self_params == param_names(
                struct_generics_of(vgs, ep, variant@.fields),
            )
            &&& r.impl_block@.methods == method_impls_of(
                methods_model(methods@),
                0,
                variant@.ident,
                tt,
                names_model(all_type_params_ordered@),
                Seq::empty(),
            )
        }),
{
    let ghost ep = generics_with_static@;
    let ghost vgsm = crate::helpers::statically_bound(variant@.generics);
    let ghost fm = variant@.fields;
    let variant_generics_with_static = add_static_bounds(&variant.generics);
    let variant_param_names = collect_all_type_param_names(&variant_generics_with_static);
    let combined = names_concat(&variant_param_names, all_type_params);
    let ghost avail = names_model(combined@);
    proof {
        assert(avail =~= param_names(vgsm) + param_names(ep));
        assert forall|k: int| 0 <= k < ep.len() implies contains_name(
            avail,
            #[trigger] ep[k].name,
        ) by {
            assert(param_names(ep)[k] == ep[k].name);
            lemma_contains_name_concat(param_names(vgsm), param_names(ep), ep[k].name);
        }
    }
    let struct_type_params = collect_variant_type_params(&variant.fields, &combined);
    let struct_generics = merge_generics(
        &variant_generics_with_static,
        generics_with_static,
        &struct_type_params,
    );
    proof {
        assert forall|k: int| 0 <= k < ep.len() implies (contains_name(
            names_model(struct_type_params@),
            #[trigger] ep[k].name,
        ) <==> fields_use_param(fm, ep[k].name)) by {
            assert(contains_name(avail, ep[k].name));
        }
        lemma_merge_is_struct_scan(
            ep,
            0,
            param_names(vgsm),
            names_model(struct_type_params@),
            fm,
            vgsm,
        );
        assert(struct_generics@ == struct_generics_of(vgsm, ep, fm));
    }
    let record = generate_variant_struct(
        &variant.ident,
        &struct_generics,
        &variant.fields,
        vis,
    );
    let trait_type: Vec<Tok>;
    match &variant.trait_type {
        Some(tt) => {
            trait_type = clone_toks(tt);
        },
        None => {
            match extract_trait_type_from_attrs(&variant.attrs) {
                Some(tt) => {
                    trait_type = tt;
                },
                None => {
                    trait_type = build_default_trait_type(enum_name, all_type_params_ordered);
                },
            }
        },
    }
    let ghost ttm = trait_type_of(variant@, enum_name@, param_names(ep));
    proof {
        assert(names_model(all_type_params_ordered@) == param_names(ep));
        assert(toks(trait_type@) == ttm);
    }
    let trait_type_params = extract_type_params_from_trait(&trait_type, all_type_params);
    let impl_type_params = names_concat(&struct_type_params, &trait_type_params);
    let impl_generics = merge_generics(
        &variant_generics_with_static,
        generics_with_static,
        &impl_type_params,
    );
    proof {
        assert forall|k: int| 0 <= k < ep.len() implies (contains_name(
            names_model(impl_type_params@),
            #[trigger] ep[k].name,
        ) <==> (fields_use_param(fm, ep[k].name) || uses_param(ttm, ep[k].name))) by {
            let n = ep[k].name;
            assert(contains_name(avail, n));
            assert(contains_name(param_names(ep), n)) by {
                assert(param_names(ep)[k] == n);
            }
            assert(contains_name(names_model(all_type_params@), n));
            lemma_contains_name_concat(
                names_model(struct_type_params@),
                names_model(trait_type_params@),
                n,
            );
        }
        lemma_merge_is_impl_scan(
            ep,
            0,
            param_names(vgsm),
            names_model(impl_type_params@),
            fm,
            ttm,
            vgsm,
        );
        assert(impl_generics@ == impl_generics_of(vgsm, ep, fm, ttm));
    }
    let self_params = collect_ordered_type_params(&struct_generics);
    let impl_block = generate_combined_trait_impl(
        variant,
        methods,
        &impl_generics,
        &self_params,
        &trait_type,
        all_type_params_ordered,
    );
    VariantCode { record, impl_block }
}


} // verus!
