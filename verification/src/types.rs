//! The abstract syntax of an indexed (GADT-style) union declaration.

use vstd::prelude::*;

verus! {

use crate::tok::{toks, Tok, TokM};
use crate::ast::{params_model, tys_model, GenericsDecl, TypeParamM};
use crate::helpers::names_model;

/// One variant constructor of an indexed union: written
/// `Name<Locals> : Param1 -> Param2 -> ReturnType`.
pub struct VariantDef {
    /// The name of the variant.
    pub name: String,
    /// Variant-specific type parameters, e.g. `<T>` in `Exist<T>`.
    pub variant_generics: Vec<String>,
    /// The constructor parameter types: the segments before the arrows.
    pub param_types: Vec<Vec<Tok>>,
    /// The refinement type after the last arrow, e.g. `Either<L, R>`.
    pub return_type: Vec<Tok>,
}

/// Model of a variant constructor.
pub struct VariantDefM {
    pub name: Seq<char>,
    pub variant_generics: Seq<Seq<char>>,
    pub param_types: Seq<Seq<TokM>>,
    pub return_type: Seq<TokM>,
}

impl View for VariantDef {
    type V = VariantDefM;

    open spec fn view(&self) -> VariantDefM {
        VariantDefM {
            name: self.name@,
            variant_generics: names_model(self.variant_generics@),
            param_types: tys_model(self.param_types@),
            return_type: toks(self.return_type@),
        }
    }
}

/// Model of a variant list.
pub open spec fn variants_model(v: Seq<VariantDef>) -> Seq<VariantDefM> {
    v.map_values(|d: VariantDef| d@)
}

/// Pushing a variant extends the model by its view.
pub proof fn lemma_variants_push(v: Seq<VariantDef>, d: VariantDef)
    ensures
        variants_model(v.push(d)) =~= variants_model(v).push(d@),
{
}

/// The whole indexed union declaration.
pub struct GadtEnum {
    /// The visibility tokens, empty when none were written.
    pub vis: Vec<Tok>,
    /// The union's name.
    pub name: String,
    /// The union's own type parameters.
    pub enum_generics: GenericsDecl,
    /// The variant constructors, in declaration order.
    pub variants: Vec<VariantDef>,
}

/// Model of an indexed union declaration.
pub struct GadtEnumM {
    pub vis: Seq<TokM>,
    pub name: Seq<char>,
    pub enum_generics: Seq<TypeParamM>,
    pub variants: Seq<VariantDefM>,
}

impl View for GadtEnum {
    type V = GadtEnumM;

    open spec fn view(&self) -> GadtEnumM {
        GadtEnumM {
            vis: toks(self.vis@),
            name: self.name@,
            enum_generics: params_model(self.enum_generics.params@),
            variants: variants_model(self.variants@),
        }
    }
}

} // verus!
