//! Generation for the indexed declaration style: the capability interface
//! with one hidden accessor per variant, and one record type per variant
//! carrying its fields plus a nominal marker for every declared parameter.

use vstd::prelude::*;

verus! {

use crate::tok::{toks, Tok, TokM};
use crate::ast::{clone_toks, tys_model, GenericsDecl, TypeParamM};
use crate::helpers::{names_model, param_names};
use crate::types::{GadtEnum, GadtEnumM, VariantDef, VariantDefM};

/// The result shape of a variant's hidden accessor: uniform across arities,
/// type-erased where variant-local parameters make a direct type
/// inexpressible in the shared interface.
pub enum AccessorResult {
    /// A zero-field variant: a unit-valued result keeps the protocol
    /// uniform.
    UnitResult,
    /// One field with no variant-local parameters: a direct borrow of it.
    Direct(Vec<Tok>),
    /// One field under variant-local parameters: an opaque type-erased
    /// capsule.
    Erased,
    /// Several fields with no variant-local parameters: a tuple of direct
    /// borrows.
    DirectTuple(Vec<Vec<Tok>>),
    /// Several fields under variant-local parameters: a tuple of capsules,
    /// one per field.
    ErasedTuple(usize),
}

/// Model of an accessor result shape.
pub enum AccessorResultM {
    UnitResult,
    Direct(Seq<TokM>),
    Erased,
    DirectTuple(Seq<Seq<TokM>>),
    ErasedTuple(int),
}

impl View for AccessorResult {
    type V = AccessorResultM;

    open spec fn view(&self) -> AccessorResultM {
        match self {
            AccessorResult::UnitResult => AccessorResultM::UnitResult,
            AccessorResult::Direct(t) => AccessorResultM::Direct(toks(t@)),
            AccessorResult::Erased => AccessorResultM::Erased,
            AccessorResult::DirectTuple(ts) => AccessorResultM::DirectTuple(tys_model(ts@)),
            AccessorResult::ErasedTuple(n) => AccessorResultM::ErasedTuple(*n as int),
        }
    }
}

/// One hidden accessor of the interface: the variant it extracts, and its
/// result shape.
pub struct AccessorSig {
    pub variant: String,
    pub result: AccessorResult,
}

/// Model of an accessor.
pub struct AccessorSigM {
    pub variant: Seq<char>,
    pub result: AccessorResultM,
}

impl View for AccessorSig {
    type V = AccessorSigM;

    open spec fn view(&self) -> AccessorSigM {
        AccessorSigM { variant: self.variant@, result: self.result@ }
    }
}

/// Model of an accessor list.
pub open spec fn accessors_model(v: Seq<AccessorSig>) -> Seq<AccessorSigM> {
    v.map_values(|a: AccessorSig| a@)
}

/// Pushing an accessor extends the model by its view.
pub proof fn lemma_accessors_push(v: Seq<AccessorSig>, a: AccessorSig)
    ensures
        accessors_model(v.push(a)) =~= accessors_model(v).push(a@),
{
}

/// The generated capability interface: one hidden accessor per variant.
pub struct InterfaceDef {
    pub vis: Vec<Tok>,
    pub name: String,
    pub generics: GenericsDecl,
    pub accessors: Vec<AccessorSig>,
}

/// Model of the interface.
pub struct InterfaceDefM {
    pub vis: Seq<TokM>,
    pub name: Seq<char>,
    pub generics: Seq<TypeParamM>,
    pub accessors: Seq<AccessorSigM>,
}

impl View for InterfaceDef {
    type V = InterfaceDefM;

    open spec fn view(&self) -> InterfaceDefM {
        InterfaceDefM {
            vis: toks(self.vis@),
            name: self.name@,
            generics: self.generics@,
            accessors: accessors_model(self.accessors@),
        }
    }
}

/// One generated record of the indexed style: the variant's fields under
/// the union's and the variant's parameters, a nominal marker covering
/// every declared parameter, and the single implementation block of the
/// interface — its accessor.
pub struct GadtRecord {
    pub vis: Vec<Tok>,
    pub name: String,
    pub generics: Vec<String>,
    pub marker: Vec<String>,
    pub fields: Vec<Vec<Tok>>,
    pub trait_name: String,
    pub trait_args: Vec<String>,
    pub accessor: AccessorSig,
}

/// Model of a generated record.
pub struct GadtRecordM {
    pub vis: Seq<TokM>,
    pub name: Seq<char>,
    pub generics: Seq<Seq<char>>,
    pub marker: Seq<Seq<char>>,
    pub fields: Seq<Seq<TokM>>,
    pub trait_name: Seq<char>,
    pub trait_args: Seq<Seq<char>>,
    pub accessor: AccessorSigM,
}

impl View for GadtRecord {
    type V = GadtRecordM;

    open spec fn view(&self) -> GadtRecordM {
        GadtRecordM {
            vis: toks(self.vis@),
            name: self.name@,
            generics: names_model(self.generics@),
            marker: names_model(self.marker@),
            fields: tys_model(self.fields@),
            trait_name: self.trait_name@,
            trait_args: names_model(self.trait_args@),
            accessor: self.accessor@,
        }
    }
}

/// Model of a record list.
pub open spec fn gadt_records_model(v: Seq<GadtRecord>) -> Seq<GadtRecordM> {
    v.map_values(|r: GadtRecord| r@)
}

/// Pushing a record extends the model by its view.
pub proof fn lemma_gadt_records_push(v: Seq<GadtRecord>, r: GadtRecord)
    ensures
        gadt_records_model(v.push(r)) =~= gadt_records_model(v).push(r@),
{
}

/// Everything generated from an indexed declaration.
pub struct GadtGenerated {
    pub interface: InterfaceDef,
    pub records: Vec<GadtRecord>,
}

/// The accessor result shape of a variant: direct for fields whose types
/// the shared interface can speak of uniformly, type-erased where the
/// variant's local parameters prevent that, unit-valued for no fields.
pub open spec fn accessor_result_of(v: VariantDefM) -> AccessorResultM {
    if v.param_types.len() == 0 {
        AccessorResultM::UnitResult
    } else if v.param_types.len() == 1 && v.variant_generics.len() == 0 {
        AccessorResultM::Direct(v.param_types[0])
    } else if v.param_types.len() == 1 {
        AccessorResultM::Erased
    } else if v.variant_generics.len() == 0 {
        AccessorResultM::DirectTuple(v.param_types)
    } else {
        AccessorResultM::ErasedTuple(v.param_types.len() as int)
    }
}

/// The accessor of a variant.
pub open spec fn accessor_sig_of(v: VariantDefM) -> AccessorSigM {
    AccessorSigM { variant: v.name, result: accessor_result_of(v) }
}

/// The parameters of a variant's record: the union's own, then the
/// variant's local ones.
pub open spec fn combined_generics_of(g: GadtEnumM, v: VariantDefM) -> Seq<Seq<char>> {
    param_names(g.enum_generics) + v.variant_generics
}

/// The record generated for one variant.
pub open spec fn gadt_record_of(g: GadtEnumM, v: VariantDefM) -> GadtRecordM {
    GadtRecordM {
        vis: g.vis,
        name: v.name,
        generics: combined_generics_of(g, v),
        marker: combined_generics_of(g, v),
        fields: v.param_types,
        trait_name: g.name,
        trait_args: param_names(g.enum_generics),
        accessor: accessor_sig_of(v),
    }
}

/// The interface generated for the whole union.
pub open spec fn interface_of(g: GadtEnumM) -> InterfaceDefM {
    InterfaceDefM {
        vis: g.vis,
        name: g.name,
        generics: g.enum_generics,
        accessors: g.variants.map_values(|v: VariantDefM| accessor_sig_of(v)),
    }
}

/// Combine the union's parameters with a variant's local ones, the union's
/// first.
pub fn combine_generics(enum_generics: &GenericsDecl, variant_generics: &Vec<String>) -> (r: Vec<
    String,
>)
    ensures
        names_model(r@) =~= param_names(enum_generics@) + names_model(variant_generics@),
{
    let mut out = crate::helpers::collect_ordered_type_params(enum_generics);
    let mut i: usize = 0;
    while i < variant_generics.len()
        invariant
            i <= variant_generics@.len(),
            names_model(out@) =~= param_names(enum_generics@) + names_model(
                variant_generics@,
            ).subrange(0, i as int),
        decreases variant_generics@.len() - i,
    {
        let c = variant_generics[i].clone();
        proof {
            crate::helpers::lemma_names_push(out@, c);
        }
        out.push(c);
        i += 1;
    }
    proof {
        assert(names_model(variant_generics@).subrange(0, variant_generics@.len() as int)
            =~= names_model(variant_generics@));
    }
    out
}

/// Copies a name list.
fn copy_names(v: &Vec<String>) -> (r: Vec<String>)
    ensures
        names_model(r@) =~= names_model(v@),
{
    let mut out: Vec<String> = Vec::new();
    let mut i: usize = 0;
    while i < v.len()
        invariant
            i <= v@.len(),
            names_model(out@) =~= names_model(v@).subrange(0, i as int),
        decreases v@.len() - i,
    {
        let c = v[i].clone();
        proof {
            crate::helpers::lemma_names_push(out@, c);
        }
        out.push(c);
        i += 1;
    }
    proof {
        assert(names_model(v@).subrange(0, v@.len() as int) =~= names_model(v@));
    }
    out
}

/// Copies a list of field types.
fn copy_tys(v: &Vec<Vec<Tok>>) -> (r: Vec<Vec<Tok>>)
    ensures
        tys_model(r@) =~= tys_model(v@),
{
    let mut out: Vec<Vec<Tok>> = Vec::new();
    let mut i: usize = 0;
    while i < v.len()
        invariant
            i <= v@.len(),
            tys_model(out@) =~= tys_model(v@).subrange(0, i as int),
        decreases v@.len() - i,
    {
        let c = clone_toks(&v[i]);
        proof {
            crate::ast::lemma_tys_push(out@, c);
        }
        out.push(c);
        i += 1;
    }
    proof {
        assert(tys_model(v@).subrange(0, v@.len() as int) =~= tys_model(v@));
    }
    out
}

/// Build a variant's accessor.
fn build_accessor(variant: &VariantDef) -> (r: AccessorSig)
    ensures
        r@ == accessor_sig_of(variant@),
{
    let result: AccessorResult;
    if variant.param_types.len() == 0 {
        result = AccessorResult::UnitResult;
    } else if variant.param_types.len() == 1 && variant.variant_generics.len() == 0 {
        result = AccessorResult::Direct(clone_toks(&variant.param_types[0]));
        proof {
            assert(toks(variant.param_types@[0]@) == variant@.param_types[0]);
        }
    } else if variant.param_types.len() == 1 {
        result = AccessorResult::Erased;
    } else if variant.variant_generics.len() == 0 {
        result = AccessorResult::DirectTuple(copy_tys(&variant.param_types));
    } else {
        result = AccessorResult::ErasedTuple(variant.param_types.len());
    }
    AccessorSig { variant: variant.name.clone(), result }
}

/// Generate the capability interface: the union's name and parameters, and
/// one hidden accessor signature per variant, in declaration order.
pub fn generate_trait(gadt: &GadtEnum) -> (r: InterfaceDef)
    ensures
        r@ == interface_of(gadt@),
{
    let mut accessors: Vec<AccessorSig> = Vec::new();
    let mut i: usize = 0;
    while i < gadt.variants.len()
        invariant
            i <= gadt.variants@.len(),
            accessors_model(accessors@) =~= gadt@.variants.map_values(
                |v: VariantDefM| accessor_sig_of(v),
            ).subrange(0, i as int),
        decreases gadt.variants@.len() - i,
    {
        let a = build_accessor(&gadt.variants[i]);
        proof {
            lemma_accessors_push(accessors@, a);
            assert(gadt@.variants[i as int] == gadt.variants@[i as int]@);
            assert(a@ == gadt@.variants.map_values(|v: VariantDefM| accessor_sig_of(v))[i as int]);
        }
        accessors.push(a);
        i += 1;
    }
    proof {
        let m = gadt@.variants.map_values(|v: VariantDefM| accessor_sig_of(v));
        assert(m.subrange(0, m.len() as int) =~= m);
    }
    let r = InterfaceDef {
        vis: clone_toks(&gadt.vis),
        name: gadt.name.clone(),
        generics: gadt.enum_generics.clone(),
        accessors,
    };
    proof {
        assert(r@.vis == interface_of(gadt@).vis);
    }
    r
}

/// Generate the record of one variant: its fields under the combined
/// parameters, the nominal marker covering every declared parameter, and
/// its accessor implementation.
fn generate_variant_struct(gadt: &GadtEnum, variant: &VariantDef) -> (r: GadtRecord)
    ensures
        r@ == gadt_record_of(gadt@, variant@),
{
    let generics = combine_generics(&gadt.enum_generics, &variant.variant_generics);
    let marker = copy_names(&generics);
    let trait_args = crate::helpers::collect_ordered_type_params(&gadt.enum_generics);
    GadtRecord {
        vis: clone_toks(&gadt.vis),
        name: variant.name.clone(),
        generics,
        marker,
        fields: copy_tys(&variant.param_types),
        trait_name: gadt.name.clone(),
        trait_args,
        accessor: build_accessor(variant),
    }
}

/// Generate the record types: one per variant, in declaration order.
pub fn generate_structs(gadt: &GadtEnum) -> (r: Vec<GadtRecord>)
    ensures
        gadt_records_model(r@).len() == gadt@.variants.len(),
        forall|i: int|
            0 <= i < gadt@.variants.len() ==> gadt_records_model(r@)[i] == gadt_record_of(
                gadt@,
                gadt@.variants[i],
            ),
{
    let mut out: Vec<GadtRecord> = Vec::new();
    let mut i: usize = 0;
    while i < gadt.variants.len()
        invariant
            i <= gadt.variants@.len(),
            gadt_records_model(out@).len() == i,
            forall|k: int|
                0 <= k < i ==> gadt_records_model(out@)[k] == gadt_record_of(
                    gadt@,
                    gadt@.variants[k],
                ),
        decreases gadt.variants@.len() - i,
    {
        let rec = generate_variant_struct(gadt, &gadt.variants[i]);
        proof {
            lemma_gadt_records_push(out@, rec);
            assert(gadt@.variants[i as int] == gadt.variants@[i as int]@);
        }
        out.push(rec);
        i += 1;
    }
    out
}

/// Generate everything for an indexed union declaration: for a union with
/// N variants, the interface declares exactly N hidden accessors, and
/// exactly N record types come out, each carrying exactly one
/// implementation block of the interface.
pub fn generate_gadt_code(gadt: &GadtEnum) -> (r: GadtGenerated)
    ensures
        r.interface@ == interface_of(gadt@),
        r.interface@.accessors.len() == gadt@.variants.len(),
        gadt_records_model(r.records@).len() == gadt@.variants.len(),
        forall|i: int|
            0 <= i < gadt@.variants.len() ==> gadt_records_model(r.records@)[i] == gadt_record_of(
                gadt@,
                gadt@.variants[i],
            ),
{
    let interface = generate_trait(gadt);
    let records = generate_structs(gadt);
    GadtGenerated { interface, records }
}

/// Unused parameters are carried nominally, not omitted: whatever subset of
/// the union's declared parameters a variant's fields mention, the variant's
/// generated record is parameterized over every declared parameter — the
/// union's and its own — and its nominal marker field names each of them,
/// so every declared parameter is observably used by the record.
pub proof fn lemma_params_carried_nominally(g: GadtEnumM, i: int)
    requires
        0 <= i < g.variants.len(),
    ensures
        gadt_record_of(g, g.variants[i]).generics == param_names(g.enum_generics)
            + g.variants[i].variant_generics,
        gadt_record_of(g, g.variants[i]).marker == gadt_record_of(g, g.variants[i]).generics,
        forall|k: int|
            0 <= k < g.enum_generics.len() ==> gadt_record_of(g, g.variants[i]).generics[k]
                == g.enum_generics[k].name,
{
    assert(forall|k: int|
        0 <= k < g.enum_generics.len() ==> param_names(g.enum_generics)[k]
            == g.enum_generics[k].name);
}

/// Appends the generic arguments of a type hint to a probe's bare type
/// name, so that a dispatch against a hinted handle probes the concrete
/// record type; a name that already carries arguments stands unchanged.
pub open spec fn hinted(name: Seq<TokM>, hint: Option<Seq<TokM>>) -> Seq<TokM> {
    match hint {
        Some(h) => if crate::type_analysis::uses_tok(name, TokM::Lt) {
            name
        } else {
            name + h
        },
        None => name,
    }
}

/// Apply a type hint's generic arguments to a probe's type name.
pub fn apply_type_hint_to_pattern(name: &Vec<Tok>, hint_generics: &Option<Vec<Tok>>) -> (r: Vec<
    Tok,
>)
    ensures
        toks(r@) == hinted(
            toks(name@),
            match hint_generics {
                Some(h) => Some(toks(h@)),
                None => None,
            },
        ),
{
    match hint_generics {
        Some(h) => {
            let mut has_lt = false;
            let ghost s = toks(name@);
            let mut k: usize = 0;
            while k < name.len()
                invariant
                    k <= name@.len(),
                    s == toks(name@),
                    has_lt == exists|m: int| 0 <= m < k && #[trigger] s[m] == TokM::Lt,
                decreases name@.len() - k,
            {
                if matches!(&name[k], Tok::Lt) {
                    proof {
                        assert(s[k as int] == TokM::Lt);
                    }
                    has_lt = true;
                }
                k += 1;
            }
            proof {
                assert(has_lt == crate::type_analysis::uses_tok(s, TokM::Lt));
            }
            if has_lt {
                clone_toks(name)
            } else {
                let mut out = clone_toks(name);
                crate::ast::extend_toks(&mut out, h);
                out
            }
        },
        None => clone_toks(name),
    }
}

} // verus!
