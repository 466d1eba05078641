//! Generic-usage analysis: which of the union's declared type parameters a
//! variant's fields, or a type expression, actually mention.
//!
//! A type expression is a token sequence; a declared parameter is used by it
//! exactly when some token of the expression is an identifier naming it.
//! Nesting through references, tuples, arrays and angle-bracketed arguments
//! needs no special cases here, because the tokens of a nested type are
//! tokens of the expression.

use vstd::prelude::*;

verus! {

use crate::tok::{str_eq, toks, Tok, TokM};
use crate::ast::{
    attrs_model,
    clone_toks,
    named_fields_model,
    tys_model,
    Attr,
    AttrM,
    Fields,
    FieldsM,
    GenericsDecl,
    NamedFieldM,
};
use crate::helpers::{
    collect_ordered_type_params,
    contains_name,
    lemma_names_push,
    names_model,
    param_names,
};

/// True when a token at or after position `i` is an identifier naming `n`.
pub open spec fn uses_param_from(s: Seq<TokM>, i: int, n: Seq<char>) -> bool {
    exists|k: int| i <= k < s.len() && s[k] == TokM::Id(n)
}

/// True when some token of the type expression is an identifier naming `n`.
pub open spec fn uses_param(s: Seq<TokM>, n: Seq<char>) -> bool {
    uses_param_from(s, 0, n)
}

/// True when the token sequence holds the given token.
pub open spec fn uses_tok(s: Seq<TokM>, t: TokM) -> bool {
    exists|k: int| 0 <= k < s.len() && s[k] == t
}

/// True when a named field at or after position `j` has a type mentioning `n`.
pub open spec fn named_use_from(fs: Seq<NamedFieldM>, j: int, n: Seq<char>) -> bool {
    exists|k: int| j <= k < fs.len() && uses_param(fs[k].ty, n)
}

/// True when a positional field type at or after position `j` mentions `n`.
pub open spec fn tys_use_from(ts: Seq<Seq<TokM>>, j: int, n: Seq<char>) -> bool {
    exists|k: int| j <= k < ts.len() && uses_param(ts[k], n)
}

/// True when some field type of the variant mentions `n`.
pub open spec fn fields_use_param(f: FieldsM, n: Seq<char>) -> bool {
    match f {
        FieldsM::Named(fs) => named_use_from(fs, 0, n),
        FieldsM::Unnamed(ts) => tys_use_from(ts, 0, n),
        FieldsM::Unit => false,
    }
}

/// The scan behind `collect_type_params`: walks the type expression's tokens
/// from position `i`, appending each available parameter name at its first
/// mention.
pub open spec fn collect_scan(
    s: Seq<TokM>,
    i: int,
    avail: Seq<Seq<char>>,
    acc: Seq<Seq<char>>,
) -> Seq<Seq<char>>
    decreases s.len() - i,
{
    if i < 0 || i >= s.len() {
        acc
    } else {
        match s[i] {
            TokM::Id(m) => if contains_name(avail, m) && !contains_name(acc, m) {
                collect_scan(s, i + 1, avail, acc.push(m))
            } else {
                collect_scan(s, i + 1, avail, acc)
            },
            _ => collect_scan(s, i + 1, avail, acc),
        }
    }
}

/// Appending one name to a name list adds exactly that name.
proof fn lemma_contains_name_push(names: Seq<Seq<char>>, x: Seq<char>, n: Seq<char>)
    ensures
        contains_name(names.push(x), n) <==> (contains_name(names, n) || n == x),
{
    if contains_name(names, n) {
        let i = choose|i: int| 0 <= i < names.len() && names[i] == n;
        assert(names.push(x)[i] == n);
    }
    if n == x {
        assert(names.push(x)[names.len() as int] == n);
    }
    if contains_name(names.push(x), n) {
        let i = choose|i: int| 0 <= i < names.push(x).len() && names.push(x)[i] == n;
        if i < names.len() {
            assert(names[i] == n);
        }
    }
}

/// Seeing one more token extends the mentions by that token's name, if any.
proof fn lemma_uses_param_step(s: Seq<TokM>, i: int, n: Seq<char>)
    requires
        0 <= i < s.len(),
    ensures
        uses_param_from(s, i, n) <==> (s[i] == TokM::Id(n) || uses_param_from(s, i + 1, n)),
{
    if uses_param_from(s, i, n) {
        let k = choose|k: int| i <= k < s.len() && s[k] == TokM::Id(n);
        if k > i {
            assert(uses_param_from(s, i + 1, n));
        }
    }
    if s[i] == TokM::Id(n) {
        assert(i <= i < s.len() && s[i] == TokM::Id(n));
    }
}

/// What the scan collects: a name is in the result exactly when it was
/// already collected or is an available parameter that the remaining tokens
/// mention.
pub proof fn lemma_collect_scan_membership(
    s: Seq<TokM>,
    i: int,
    avail: Seq<Seq<char>>,
    acc: Seq<Seq<char>>,
    n: Seq<char>,
)
    requires
        0 <= i <= s.len(),
    ensures
        contains_name(collect_scan(s, i, avail, acc), n) <==> (contains_name(acc, n) || (
        contains_name(avail, n) && uses_param_from(s, i, n))),
    decreases s.len() - i,
{
    if i < s.len() {
        lemma_uses_param_step(s, i, n);
        match s[i] {
            TokM::Id(m) => {
                if contains_name(avail, m) && !contains_name(acc, m) {
                    lemma_collect_scan_membership(s, i + 1, avail, acc.push(m), n);
                    lemma_contains_name_push(acc, m, n);
                } else {
                    lemma_collect_scan_membership(s, i + 1, avail, acc, n);
                }
            },
            _ => {
                lemma_collect_scan_membership(s, i + 1, avail, acc, n);
            },
        }
    } else {
        assert(!uses_param_from(s, i, n));
    }
}

/// True when `name` occurs in the list.
pub fn names_contain(names: &Vec<String>, name: &str) -> (r: bool)
    ensures
        r == contains_name(names_model(names@), name@),
{
    let mut i: usize = 0;
    while i < names.len()
        invariant
            i <= names.len(),
            forall|j: int| 0 <= j < i ==> names_model(names@)[j] != name@,
        decreases names.len() - i,
    {
        if str_eq(names[i].as_str(), name) {
            proof {
                assert(names_model(names@)[i as int] == name@);
            }
            return true;
        }
        i += 1;
    }
    false
}

/// Recursively collect type parameter names from a type expression: every
/// available parameter that the expression mentions joins `used` at its
/// first mention, and nothing else does.
pub fn collect_type_params(ty: &Vec<Tok>, available: &Vec<String>, used: &mut Vec<String>)
    ensures
        names_model(final(used)@) == collect_scan(
            toks(ty@),
            0,
            names_model(available@),
            names_model(old(used)@),
        ),
        forall|n: Seq<char>|
            contains_name(names_model(final(used)@), n) <==> (contains_name(
                names_model(old(used)@),
                n,
            ) || (contains_name(names_model(available@), n) && uses_param(toks(ty@), n))),
{
    let ghost s = toks(ty@);
    let ghost avail = names_model(available@);
    let ghost u0 = names_model(used@);
    let mut i: usize = 0;
    while i < ty.len()
        invariant
            i <= ty.len(),
            s == toks(ty@),
            avail == names_model(available@),
            collect_scan(s, 0, avail, u0) == collect_scan(s, i as int, avail, names_model(used@)),
        decreases ty.len() - i,
    {
        let t = &ty[i];
        proof {
            assert(s[i as int] == ty@[i as int]@);
        }
        match t {
            Tok::Id(nm) => {
                let in_avail = names_contain(available, nm.as_str());
                let in_used = names_contain(used, nm.as_str());
                if in_avail && !in_used {
                    let c = nm.clone();
                    proof {
                        lemma_names_push(used@, c);
                    }
                    used.push(c);
                }
            },
            _ => {},
        }
        i += 1;
    }
    proof {
        assert(collect_scan(s, ty@.len() as int, avail, names_model(used@)) == names_model(
            used@,
        ));
        assert forall|n: Seq<char>|
            contains_name(names_model(used@), n) <==> (contains_name(u0, n) || (contains_name(
                avail,
                n,
            ) && uses_param(s, n))) by {
            lemma_collect_scan_membership(s, 0, avail, u0, n);
        }
    }
}

/// Extract all type parameters used in a given type expression.
pub fn extract_used_type_params(ty: &Vec<Tok>, available_params: &Vec<String>) -> (r: Vec<String>)
    ensures
        forall|n: Seq<char>|
            contains_name(names_model(r@), n) <==> (contains_name(
                names_model(available_params@),
                n,
            ) && uses_param(toks(ty@), n)),
{
    let mut used: Vec<String> = Vec::new();
    proof {
        assert(names_model(used@) =~= Seq::<Seq<char>>::empty());
        assert(forall|n: Seq<char>| !contains_name(Seq::<Seq<char>>::empty(), n));
    }
    collect_type_params(ty, available_params, &mut used);
    used
}

/// The scan over a variant's named fields, collecting over each field type
/// in order.
pub open spec fn collect_named_scan(
    fs: Seq<NamedFieldM>,
    j: int,
    avail: Seq<Seq<char>>,
    acc: Seq<Seq<char>>,
) -> Seq<Seq<char>>
    decreases fs.len() - j,
{
    if j < 0 || j >= fs.len() {
        acc
    } else {
        collect_named_scan(fs, j + 1, avail, collect_scan(fs[j].ty, 0, avail, acc))
    }
}

/// The scan over a variant's positional field types.
pub open spec fn collect_tys_scan(
    ts: Seq<Seq<TokM>>,
    j: int,
    avail: Seq<Seq<char>>,
    acc: Seq<Seq<char>>,
) -> Seq<Seq<char>>
    decreases ts.len() - j,
{
    if j < 0 || j >= ts.len() {
        acc
    } else {
        collect_tys_scan(ts, j + 1, avail, collect_scan(ts[j], 0, avail, acc))
    }
}

proof fn lemma_collect_named_scan_membership(
    fs: Seq<NamedFieldM>,
    j: int,
    avail: Seq<Seq<char>>,
    acc: Seq<Seq<char>>,
    n: Seq<char>,
)
    requires
        0 <= j <= fs.len(),
    ensures
        contains_name(collect_named_scan(fs, j, avail, acc), n) <==> (contains_name(acc, n) || (
        contains_name(avail, n) && named_use_from(fs, j, n))),
    decreases fs.len() - j,
{
    if j < fs.len() {
        let acc2 = collect_scan(fs[j].ty, 0, avail, acc);
        lemma_collect_scan_membership(fs[j].ty, 0, avail, acc, n);
        lemma_collect_named_scan_membership(fs, j + 1, avail, acc2, n);
        if contains_name(avail, n) && uses_param(fs[j].ty, n) {
            assert(contains_name(acc2, n));
            assert(j <= j < fs.len() && uses_param(fs[j].ty, n));
            assert(named_use_from(fs, j, n));
        }
        if named_use_from(fs, j + 1, n) {
            let k = choose|k: int| j + 1 <= k < fs.len() && uses_param(fs[k].ty, n);
            assert(j <= k < fs.len() && uses_param(fs[k].ty, n));
            assert(named_use_from(fs, j, n));
        }
        if named_use_from(fs, j, n) && !uses_param(fs[j].ty, n) {
            let k = choose|k: int| j <= k < fs.len() && uses_param(fs[k].ty, n);
            assert(j + 1 <= k < fs.len() && uses_param(fs[k].ty, n));
            assert(named_use_from(fs, j + 1, n));
        }
    } else {
        assert(!named_use_from(fs, j, n));
    }
}

proof fn lemma_collect_tys_scan_membership(
    ts: Seq<Seq<TokM>>,
    j: int,
    avail: Seq<Seq<char>>,
    acc: Seq<Seq<char>>,
    n: Seq<char>,
)
    requires
        0 <= j <= ts.len(),
    ensures
        contains_name(collect_tys_scan(ts, j, avail, acc), n) <==> (contains_name(acc, n) || (
        contains_name(avail, n) && tys_use_from(ts, j, n))),
    decreases ts.len() - j,
{
    if j < ts.len() {
        let acc2 = collect_scan(ts[j], 0, avail, acc);
        lemma_collect_scan_membership(ts[j], 0, avail, acc, n);
        lemma_collect_tys_scan_membership(ts, j + 1, avail, acc2, n);
        if contains_name(avail, n) && uses_param(ts[j], n) {
            assert(contains_name(acc2, n));
            assert(j <= j < ts.len() && uses_param(ts[j], n));
            assert(tys_use_from(ts, j, n));
        }
        if tys_use_from(ts, j + 1, n) {
            let k = choose|k: int| j + 1 <= k < ts.len() && uses_param(ts[k], n);
            assert(j <= k < ts.len() && uses_param(ts[k], n));
            assert(tys_use_from(ts, j, n));
        }
        if tys_use_from(ts, j, n) && !uses_param(ts[j], n) {
            let k = choose|k: int| j <= k < ts.len() && uses_param(ts[k], n);
            assert(j + 1 <= k < ts.len() && uses_param(ts[k], n));
            assert(tys_use_from(ts, j + 1, n));
        }
    } else {
        assert(!tys_use_from(ts, j, n));
    }
}

/// Collect all available type parameters that the variant's field types
/// mention.
pub fn collect_variant_type_params(fields: &Fields, available_params: &Vec<String>) -> (r: Vec<
    String,
>)
    ensures
        forall|n: Seq<char>|
            contains_name(names_model(r@), n) <==> (contains_name(
                names_model(available_params@),
                n,
            ) && fields_use_param(fields@, n)),
{
    let ghost avail = names_model(available_params@);
    let mut used: Vec<String> = Vec::new();
    proof {
        assert(names_model(used@) =~= Seq::<Seq<char>>::empty());
        assert(forall|n: Seq<char>| !contains_name(Seq::<Seq<char>>::empty(), n));
    }
    match fields {
        Fields::Named(fs) => {
            let ghost fm = named_fields_model(fs@);
            let mut j: usize = 0;
            while j < fs.len()
                invariant
                    j <= fs.len(),
                    fm == named_fields_model(fs@),
                    avail == names_model(available_params@),
                    collect_named_scan(fm, 0, avail, Seq::empty()) == collect_named_scan(
                        fm,
                        j as int,
                        avail,
                        names_model(used@),
                    ),
                decreases fs.len() - j,
            {
                proof {
                    assert(fm[j as int].ty == toks(fs@[j as int].ty@));
                }
                collect_type_params(&fs[j].ty, available_params, &mut used);
                j += 1;
            }
            proof {
                assert(collect_named_scan(fm, fs@.len() as int, avail, names_model(used@))
                    == names_model(used@));
                assert forall|n: Seq<char>|
                    contains_name(names_model(used@), n) <==> (contains_name(avail, n)
                        && fields_use_param(fields@, n)) by {
                    lemma_collect_named_scan_membership(fm, 0, avail, Seq::empty(), n);
                    assert(!contains_name(Seq::<Seq<char>>::empty(), n));
                    assert(fields@ == FieldsM::Named(fm));
                    assert(fields_use_param(fields@, n) == named_use_from(fm, 0, n));
                }
            }
        },
        Fields::Unnamed(ts) => {
            let ghost tm = tys_model(ts@);
            let mut j: usize = 0;
            while j < ts.len()
                invariant
                    j <= ts.len(),
                    tm == tys_model(ts@),
                    avail == names_model(available_params@),
                    collect_tys_scan(tm, 0, avail, Seq::empty()) == collect_tys_scan(
                        tm,
                        j as int,
                        avail,
                        names_model(used@),
                    ),
                decreases ts.len() - j,
            {
                proof {
                    assert(tm[j as int] == toks(ts@[j as int]@));
                }
                collect_type_params(&ts[j], available_params, &mut used);
                j += 1;
            }
            proof {
                assert(collect_tys_scan(tm, ts@.len() as int, avail, names_model(used@))
                    == names_model(used@));
                assert forall|n: Seq<char>|
                    contains_name(names_model(used@), n) <==> (contains_name(avail, n)
                        && fields_use_param(fields@, n)) by {
                    lemma_collect_tys_scan_membership(tm, 0, avail, Seq::empty(), n);
                    assert(!contains_name(Seq::<Seq<char>>::empty(), n));
                    assert(fields@ == FieldsM::Unnamed(tm));
                    assert(fields_use_param(fields@, n) == tys_use_from(tm, 0, n));
                }
            }
        },
        Fields::Unit => {
            proof {
                assert(fields@ == FieldsM::Unit);
                assert forall|n: Seq<char>|
                    contains_name(names_model(used@), n) <==> (contains_name(avail, n)
                        && fields_use_param(fields@, n)) by {
                    assert(!contains_name(names_model(used@), n));
                    assert(!fields_use_param(fields@, n));
                }
            }
        },
    }
    proof {
        assert(forall|n: Seq<char>|
            contains_name(names_model(used@), n) <==> (contains_name(
                names_model(available_params@),
                n,
            ) && fields_use_param(fields@, n)));
    }
    used
}

/// Collect all type parameter names declared by a parameter list.
pub fn collect_all_type_param_names(generics: &GenericsDecl) -> (r: Vec<String>)
    ensures
        names_model(r@) =~= param_names(generics@),
{
    collect_ordered_type_params(generics)
}

/// The position of the first attribute named `impl_trait`, searching from `i`.
pub open spec fn impl_trait_attr_from(attrs: Seq<AttrM>, i: int) -> Option<int>
    decreases attrs.len() - i,
{
    if i < 0 || i >= attrs.len() {
        None
    } else if attrs[i].name == "impl_trait"@ {
        Some(i)
    } else {
        impl_trait_attr_from(attrs, i + 1)
    }
}

/// Extract the trait type named by a variant attribute such as
/// `#[impl_trait(Term<bool>)]`: the tokens of the first such attribute.
pub fn extract_trait_type_from_attrs(attrs: &Vec<Attr>) -> (r: Option<Vec<Tok>>)
    ensures
        match r {
            Some(ts) => impl_trait_attr_from(attrs_model(attrs@), 0) matches Some(i) && toks(ts@)
                == attrs_model(attrs@)[i].tokens,
            None => impl_trait_attr_from(attrs_model(attrs@), 0) is None,
        },
{
    let ghost am = attrs_model(attrs@);
    let mut i: usize = 0;
    while i < attrs.len()
        invariant
            i <= attrs.len(),
            am == attrs_model(attrs@),
            impl_trait_attr_from(am, 0) == impl_trait_attr_from(am, i as int),
        decreases attrs.len() - i,
    {
        if str_eq(attrs[i].name.as_str(), "impl_trait") {
            proof {
                assert(am[i as int].name == attrs@[i as int]@.name);
            }
            return Some(clone_toks(&attrs[i].tokens));
        }
        i += 1;
    }
    None
}

} // verus!
