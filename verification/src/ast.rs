//! Structured pieces shared by both declaration styles: type-parameter
//! lists, field lists and attributes, together with their mathematical
//! models.

use vstd::prelude::*;

verus! {

use crate::tok::{lemma_toks_push, toks, Tok, TokM};

/// One declared type parameter: its name and the bound tokens written after
/// the colon (empty when no bound was written).
pub struct TypeParam {
    pub name: String,
    pub bounds: Vec<Tok>,
}

/// Model of a type parameter.
pub struct TypeParamM {
    pub name: Seq<char>,
    pub bounds: Seq<TokM>,
}

impl View for TypeParam {
    type V = TypeParamM;

    open spec fn view(&self) -> TypeParamM {
        TypeParamM { name: self.name@, bounds: toks(self.bounds@) }
    }
}

/// Model of a parameter list.
pub open spec fn params_model(v: Seq<TypeParam>) -> Seq<TypeParamM> {
    v.map_values(|p: TypeParam| p@)
}

/// Pushing a parameter extends the model by its view.
pub proof fn lemma_params_push(v: Seq<TypeParam>, p: TypeParam)
    ensures
        params_model(v.push(p)) =~= params_model(v).push(p@),
{
}

impl Clone for TypeParam {
    fn clone(&self) -> (r: Self)
        ensures
            r@ == self@,
    {
        TypeParam { name: self.name.clone(), bounds: clone_toks(&self.bounds) }
    }
}

/// An ordered list of declared type parameters.
pub struct GenericsDecl {
    pub params: Vec<TypeParam>,
}

impl View for GenericsDecl {
    type V = Seq<TypeParamM>;

    open spec fn view(&self) -> Seq<TypeParamM> {
        params_model(self.params@)
    }
}

impl GenericsDecl {
    /// A parameter list with nothing declared.
    pub fn empty() -> (r: GenericsDecl)
        ensures
            r@ =~= Seq::<TypeParamM>::empty(),
    {
        GenericsDecl { params: Vec::new() }
    }
}

impl Clone for GenericsDecl {
    fn clone(&self) -> (r: Self)
        ensures
            r@ == self@,
    {
        let mut params: Vec<TypeParam> = Vec::new();
        let mut i: usize = 0;
        while i < self.params.len()
            invariant
                i <= self.params.len(),
                params_model(params@) =~= self@.subrange(0, i as int),
            decreases self.params.len() - i,
        {
            let p = self.params[i].clone();
            proof {
                lemma_params_push(params@, p);
            }
            params.push(p);
            i += 1;
        }
        proof {
            assert(self@.subrange(0, self@.len() as int) =~= self@);
        }
        GenericsDecl { params }
    }
}

/// One named field of a record-style variant.
pub struct NamedField {
    pub name: String,
    pub ty: Vec<Tok>,
}

/// Model of a named field.
pub struct NamedFieldM {
    pub name: Seq<char>,
    pub ty: Seq<TokM>,
}

impl View for NamedField {
    type V = NamedFieldM;

    open spec fn view(&self) -> NamedFieldM {
        NamedFieldM { name: self.name@, ty: toks(self.ty@) }
    }
}

/// Model of a list of named fields.
pub open spec fn named_fields_model(v: Seq<NamedField>) -> Seq<NamedFieldM> {
    v.map_values(|f: NamedField| f@)
}

/// Pushing a named field extends the model by its view.
pub proof fn lemma_named_fields_push(v: Seq<NamedField>, f: NamedField)
    ensures
        named_fields_model(v.push(f)) =~= named_fields_model(v).push(f@),
{
}

/// The field list of a variant: named, positional, or none.
pub enum Fields {
    Named(Vec<NamedField>),
    Unnamed(Vec<Vec<Tok>>),
    Unit,
}

/// Model of a field list.
pub enum FieldsM {
    Named(Seq<NamedFieldM>),
    Unnamed(Seq<Seq<TokM>>),
    Unit,
}

/// Model of a list of positional field types.
pub open spec fn tys_model(v: Seq<Vec<Tok>>) -> Seq<Seq<TokM>> {
    v.map_values(|t: Vec<Tok>| toks(t@))
}

/// Pushing a type extends the model by its token model.
pub proof fn lemma_tys_push(v: Seq<Vec<Tok>>, t: Vec<Tok>)
    ensures
        tys_model(v.push(t)) =~= tys_model(v).push(toks(t@)),
{
}

impl View for Fields {
    type V = FieldsM;

    open spec fn view(&self) -> FieldsM {
        match self {
            Fields::Named(fs) => FieldsM::Named(named_fields_model(fs@)),
            Fields::Unnamed(ts) => FieldsM::Unnamed(tys_model(ts@)),
            Fields::Unit => FieldsM::Unit,
        }
    }
}

/// One outer attribute: its path identifier and the tokens inside its
/// argument list (empty when it has none).
pub struct Attr {
    pub name: String,
    pub tokens: Vec<Tok>,
}

/// Model of an attribute.
pub struct AttrM {
    pub name: Seq<char>,
    pub tokens: Seq<TokM>,
}

impl View for Attr {
    type V = AttrM;

    open spec fn view(&self) -> AttrM {
        AttrM { name: self.name@, tokens: toks(self.tokens@) }
    }
}

/// Model of an attribute list.
pub open spec fn attrs_model(v: Seq<Attr>) -> Seq<AttrM> {
    v.map_values(|a: Attr| a@)
}

/// Pushing an attribute extends the model by its view.
pub proof fn lemma_attrs_push(v: Seq<Attr>, a: Attr)
    ensures
        attrs_model(v.push(a)) =~= attrs_model(v).push(a@),
{
}

/// Copies a token list.
pub fn clone_toks(v: &Vec<Tok>) -> (r: Vec<Tok>)
    ensures
        toks(r@) =~= toks(v@),
{
    let mut out: Vec<Tok> = Vec::new();
    let mut i: usize = 0;
    while i < v.len()
        invariant
            i <= v.len(),
            toks(out@) =~= toks(v@).subrange(0, i as int),
        decreases v.len() - i,
    {
        let t = v[i].clone();
        proof {
            lemma_toks_push(out@, t);
        }
        out.push(t);
        i += 1;
    }
    proof {
        assert(toks(v@).subrange(0, v@.len() as int) =~= toks(v@));
    }
    out
}

/// Copies the tokens of `v` between positions `a` and `b`.
pub fn sub_toks(v: &Vec<Tok>, a: usize, b: usize) -> (r: Vec<Tok>)
    requires
        a <= b <= v@.len(),
    ensures
        toks(r@) =~= toks(v@).subrange(a as int, b as int),
{
    let mut out: Vec<Tok> = Vec::new();
    let mut i: usize = a;
    while i < b
        invariant
            a <= i <= b <= v@.len(),
            toks(out@) =~= toks(v@).subrange(a as int, i as int),
        decreases b - i,
    {
        let t = v[i].clone();
        proof {
            lemma_toks_push(out@, t);
        }
        out.push(t);
        i += 1;
    }
    out
}

/// Appends a copy of every token of `src` to `out`.
pub fn extend_toks(out: &mut Vec<Tok>, src: &Vec<Tok>)
    ensures
        toks(final(out)@) =~= toks(old(out)@) + toks(src@),
{
    let mut i: usize = 0;
    while i < src.len()
        invariant
            i <= src.len(),
            toks(out@) =~= toks(old(out)@) + toks(src@).subrange(0, i as int),
        decreases src.len() - i,
    {
        let t = src[i].clone();
        proof {
            lemma_toks_push(out@, t);
        }
        out.push(t);
        i += 1;
    }
    proof {
        assert(toks(src@).subrange(0, src@.len() as int) =~= toks(src@));
    }
}

} // verus!
