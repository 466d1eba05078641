//! Type-parameter handling: collecting declared parameters, adding bounds,
//! stripping pattern generics, reading refinement arguments, and the
//! substitution engine that rewrites a shared operation's signature under a
//! variant's refinement annotation.

use vstd::prelude::*;

verus! {

use crate::tok::{lemma_toks_push, str_eq, toks, Tok, TokM};
use crate::ast::{
    clone_toks,
    extend_toks,
    lemma_params_push,
    lemma_tys_push,
    params_model,
    tys_model,
    GenericsDecl,
    TypeParam,
    TypeParamM,
};

/// Model of a list of names.
pub open spec fn names_model(v: Seq<String>) -> Seq<Seq<char>> {
    v.map_values(|s: String| s@)
}

/// Pushing a name extends the model by its view.
pub proof fn lemma_names_push(v: Seq<String>, s: String)
    ensures
        names_model(v.push(s)) =~= names_model(v).push(s@),
{
}

/// The names of a parameter list, in declaration order.
pub open spec fn param_names(ps: Seq<TypeParamM>) -> Seq<Seq<char>> {
    ps.map_values(|p: TypeParamM| p.name)
}

/// Collect type parameter names in order.
pub fn collect_ordered_type_params(generics: &GenericsDecl) -> (r: Vec<String>)
    ensures
        names_model(r@) =~= param_names(generics@),
{
    let mut out: Vec<String> = Vec::new();
    let mut i: usize = 0;
    while i < generics.params.len()
        invariant
            i <= generics.params.len(),
            names_model(out@) =~= param_names(generics@).subrange(0, i as int),
        decreases generics.params.len() - i,
    {
        let name = generics.params[i].name.clone();
        proof {
            lemma_names_push(out@, name);
        }
        out.push(name);
        i += 1;
    }
    proof {
        assert(param_names(generics@).subrange(0, generics.params@.len() as int) =~= param_names(
            generics@,
        ));
    }
    out
}

/// The bound tokens `'static`, for a parameter with no bound of its own.
pub open spec fn static_bound() -> Seq<TokM> {
    seq![TokM::Lifetime("static"@)]
}

/// The bound tokens `+ 'static`, appended to an existing bound.
pub open spec fn plus_static() -> Seq<TokM> {
    seq![TokM::Punct('+'), TokM::Lifetime("static"@)]
}

/// What `add_static_bounds` does to one parameter's bound list.
pub open spec fn with_static_bound(bounds: Seq<TokM>) -> Seq<TokM> {
    if bounds.len() == 0 {
        static_bound()
    } else {
        bounds + plus_static()
    }
}

/// A parameter list with `'static` added to every bound.
pub open spec fn statically_bound(ps: Seq<TypeParamM>) -> Seq<TypeParamM> {
    ps.map_values(
        |p: TypeParamM| TypeParamM { name: p.name, bounds: with_static_bound(p.bounds) },
    )
}

/// Add a `'static` bound to every declared type parameter.
pub fn add_static_bounds(generics: &GenericsDecl) -> (r: GenericsDecl)
    ensures
        r@ == statically_bound(generics@),
        r@.len() == generics@.len(),
        forall|i: int|
            0 <= i < generics@.len() ==> r@[i].name == generics@[i].name && r@[i].bounds
                == with_static_bound(generics@[i].bounds),
{
    let mut params: Vec<TypeParam> = Vec::new();
    let mut i: usize = 0;
    while i < generics.params.len()
        invariant
            i <= generics.params.len(),
            params_model(params@).len() == i,
            forall|j: int|
                0 <= j < i ==> params_model(params@)[j].name == generics@[j].name && params_model(
                    params@,
                )[j].bounds == with_static_bound(generics@[j].bounds),
        decreases generics.params.len() - i,
    {
        let mut bounds = clone_toks(&generics.params[i].bounds);
        if bounds.len() == 0 {
            let t = Tok::Lifetime("static".to_owned());
            proof {
                lemma_toks_push(bounds@, t);
            }
            bounds.push(t);
            proof {
                assert(toks(bounds@) =~= with_static_bound(generics@[i as int].bounds));
            }
        } else {
            let t1 = Tok::Punct('+');
            proof {
                lemma_toks_push(bounds@, t1);
            }
            bounds.push(t1);
            let t2 = Tok::Lifetime("static".to_owned());
            proof {
                lemma_toks_push(bounds@, t2);
            }
            bounds.push(t2);
            proof {
                assert(toks(bounds@) =~= with_static_bound(generics@[i as int].bounds));
            }
        }
        let p = TypeParam { name: generics.params[i].name.clone(), bounds };
        proof {
            lemma_params_push(params@, p);
        }
        params.push(p);
        i += 1;
    }
    let r = GenericsDecl { params };
    proof {
        assert(r@ =~= statically_bound(generics@));
    }
    r
}

/// The scan behind `strip_pattern_generics`: walks the tokens keeping only
/// those outside angle brackets, tracking nesting depth.
pub open spec fn strip_scan(s: Seq<TokM>, i: int, depth: int, acc: Seq<TokM>) -> Seq<TokM>
    decreases s.len() - i,
{
    if i < 0 || i >= s.len() {
        acc
    } else if s[i] == TokM::Lt {
        strip_scan(s, i + 1, depth + 1, acc)
    } else if s[i] == TokM::Gt && depth > 0 {
        strip_scan(s, i + 1, depth - 1, acc)
    } else if depth > 0 {
        strip_scan(s, i + 1, depth, acc)
    } else {
        strip_scan(s, i + 1, 0, acc.push(s[i]))
    }
}

/// What stripping leaves of a pattern: its tokens outside angle brackets.
pub open spec fn stripped(s: Seq<TokM>) -> Seq<TokM> {
    strip_scan(s, 0, 0, Seq::empty())
}

/// Strip generic type arguments from a pattern, e.g. `Lift<i32>(x)`
/// becomes `Lift(x)`; angle brackets nest.
pub fn strip_pattern_generics(pattern: &Vec<Tok>) -> (r: Vec<Tok>)
    ensures
        toks(r@) =~= stripped(toks(pattern@)),
{
    let ghost s = toks(pattern@);
    let mut out: Vec<Tok> = Vec::new();
    proof {
        assert(toks(out@) =~= Seq::<TokM>::empty());
    }
    let mut depth: usize = 0;
    let mut i: usize = 0;
    while i < pattern.len()
        invariant
            i <= pattern.len(),
            depth <= i,
            s == toks(pattern@),
            stripped(s) == strip_scan(s, i as int, depth as int, toks(out@)),
        decreases pattern.len() - i,
    {
        let t = &pattern[i];
        match t {
            Tok::Lt => {
                depth += 1;
            },
            Tok::Gt => {
                if depth > 0 {
                    depth -= 1;
                } else {
                    let c = t.clone();
                    proof {
                        lemma_toks_push(out@, c);
                    }
                    out.push(c);
                }
            },
            _ => {
                if depth == 0 {
                    let c = t.clone();
                    proof {
                        lemma_toks_push(out@, c);
                    }
                    out.push(c);
                }
            },
        }
        i += 1;
    }
    out
}

/// The scan behind `extract_trait_type_args`: collects the comma-separated
/// argument segments between the first top-level `<` and its matching `>`,
/// keeping nested angle brackets inside a segment intact.
pub open spec fn args_scan(
    s: Seq<TokM>,
    i: int,
    depth: int,
    cur: Seq<TokM>,
    acc: Seq<Seq<TokM>>,
) -> Seq<Seq<TokM>>
    decreases s.len() - i,
{
    if i < 0 || i >= s.len() {
        acc
    } else if depth == 0 {
        if s[i] == TokM::Lt {
            args_scan(s, i + 1, 1, cur, acc)
        } else {
            args_scan(s, i + 1, 0, cur, acc)
        }
    } else if s[i] == TokM::Gt {
        if depth == 1 {
            if cur.len() > 0 {
                acc.push(cur)
            } else {
                acc
            }
        } else {
            args_scan(s, i + 1, depth - 1, cur.push(TokM::Gt), acc)
        }
    } else if s[i] == TokM::Lt {
        args_scan(s, i + 1, depth + 1, cur.push(TokM::Lt), acc)
    } else if s[i] == TokM::Comma && depth == 1 {
        args_scan(
            s,
            i + 1,
            1,
            Seq::empty(),
            if cur.len() > 0 {
                acc.push(cur)
            } else {
                acc
            },
        )
    } else {
        args_scan(s, i + 1, depth, cur.push(s[i]), acc)
    }
}

/// The refinement argument segments of a type expression such as
/// `Pair<B, A>`: here the segments for `B` and for `A`.
pub open spec fn trait_type_args(s: Seq<TokM>) -> Seq<Seq<TokM>> {
    args_scan(s, 0, 0, Seq::empty(), Seq::empty())
}

/// Extract the type arguments from a refinement type expression, e.g.
/// `Pair<B, A>` yields the two segments `B` and `A`.
pub fn extract_trait_type_args(trait_type: &Vec<Tok>) -> (r: Vec<Vec<Tok>>)
    ensures
        tys_model(r@) =~= trait_type_args(toks(trait_type@)),
{
    let ghost s = toks(trait_type@);
    let mut acc: Vec<Vec<Tok>> = Vec::new();
    let mut cur: Vec<Tok> = Vec::new();
    proof {
        assert(toks(cur@) =~= Seq::<TokM>::empty());
        assert(tys_model(acc@) =~= Seq::<Seq<TokM>>::empty());
    }
    let mut depth: usize = 0;
    let mut i: usize = 0;
    while i < trait_type.len()
        invariant
            i <= trait_type.len(),
            depth <= i,
            s == toks(trait_type@),
            trait_type_args(s) == args_scan(
                s,
                i as int,
                depth as int,
                toks(cur@),
                tys_model(acc@),
            ),
        decreases trait_type.len() - i,
    {
        let t = &trait_type[i];
        if depth == 0 {
            match t {
                Tok::Lt => {
                    depth = 1;
                },
                _ => {},
            }
        } else {
            match t {
                Tok::Gt => {
                    if depth == 1 {
                        if cur.len() > 0 {
                            proof {
                                lemma_tys_push(acc@, cur);
                            }
                            acc.push(cur);
                        }
                        return acc;
                    } else {
                        depth -= 1;
                        let c = Tok::Gt;
                        proof {
                            lemma_toks_push(cur@, c);
                        }
                        cur.push(c);
                    }
                },
                Tok::Lt => {
                    depth += 1;
                    let c = Tok::Lt;
                    proof {
                        lemma_toks_push(cur@, c);
                    }
                    cur.push(c);
                },
                Tok::Comma => {
                    if depth == 1 {
                        if cur.len() > 0 {
                            proof {
                                lemma_tys_push(acc@, cur);
                            }
                            acc.push(cur);
                        }
                        cur = Vec::new();
                        proof {
                            assert(toks(cur@) =~= Seq::<TokM>::empty());
                        }
                    } else {
                        let c = Tok::Comma;
                        proof {
                            lemma_toks_push(cur@, c);
                        }
                        cur.push(c);
                    }
                },
                _ => {
                    let c = t.clone();
                    proof {
                        lemma_toks_push(cur@, c);
                    }
                    cur.push(c);
                },
            }
        }
        i += 1;
    }
    acc
}

/// The position of `name` in the declared parameter list, searching from `i`.
pub open spec fn param_index_from(params: Seq<Seq<char>>, name: Seq<char>, i: int) -> Option<int>
    decreases params.len() - i,
{
    if i < 0 || i >= params.len() {
        None
    } else if params[i] == name {
        Some(i)
    } else {
        param_index_from(params, name, i + 1)
    }
}

/// The position of `name` in the declared parameter list, if any.
pub open spec fn param_index(params: Seq<Seq<char>>, name: Seq<char>) -> Option<int> {
    param_index_from(params, name, 0)
}

/// `param_index` finds the first occurrence.
pub proof fn lemma_param_index_first(params: Seq<Seq<char>>, i: int)
    requires
        0 <= i < params.len(),
        forall|j: int| 0 <= j < i ==> params[j] != params[i],
    ensures
        param_index(params, params[i]) == Some(i),
{
    lemma_param_index_first_from(params, params[i], 0, i);
}

proof fn lemma_param_index_first_from(params: Seq<Seq<char>>, name: Seq<char>, k: int, i: int)
    requires
        0 <= k <= i < params.len(),
        params[i] == name,
        forall|j: int| k <= j < i ==> params[j] != name,
    ensures
        param_index_from(params, name, k) == Some(i),
    decreases i - k,
{
    if k < i {
        lemma_param_index_first_from(params, name, k + 1, i);
    }
}

/// What simultaneous substitution makes of one token: an identifier naming
/// the `i`-th declared parameter becomes the `i`-th refinement argument's
/// tokens; every other token stands unchanged.
pub open spec fn subst_tok(t: TokM, params: Seq<Seq<char>>, args: Seq<Seq<TokM>>) -> Seq<TokM> {
    match t {
        TokM::Id(s) => match param_index(params, s) {
            Some(i) => if 0 <= i < args.len() {
                args[i]
            } else {
                seq![t]
            },
            None => seq![t],
        },
        _ => seq![t],
    }
}

/// Simultaneous substitution over a token sequence: every parameter
/// occurrence is replaced by its refinement argument in one step, so an
/// argument that happens to name another parameter is never rewritten again.
pub open spec fn subst_toks(s: Seq<TokM>, params: Seq<Seq<char>>, args: Seq<Seq<TokM>>) -> Seq<
    TokM,
>
    decreases s.len(),
{
    if s.len() == 0 {
        Seq::empty()
    } else {
        subst_tok(s[0], params, args) + subst_toks(s.drop_first(), params, args)
    }
}

/// Substituting in a one-token sequence gives that token's substitution.
pub proof fn lemma_subst_toks_singleton(t: TokM, params: Seq<Seq<char>>, args: Seq<Seq<TokM>>)
    ensures
        subst_toks(seq![t], params, args) =~= subst_tok(t, params, args),
{
    assert(seq![t].len() == 1);
    assert(seq![t][0] == t);
    assert(seq![t].drop_first() =~= Seq::<TokM>::empty());
    assert(subst_toks(seq![t].drop_first(), params, args) =~= Seq::<TokM>::empty());
}

/// Substitution distributes over appending one token.
pub proof fn lemma_subst_toks_push(s: Seq<TokM>, t: TokM, params: Seq<Seq<char>>, args: Seq<Seq<TokM>>)
    ensures
        subst_toks(s.push(t), params, args) =~= subst_toks(s, params, args) + subst_tok(
            t,
            params,
            args,
        ),
    decreases s.len(),
{
    if s.len() == 0 {
        assert(s.push(t) =~= seq![t]);
        lemma_subst_toks_singleton(t, params, args);
        assert(subst_toks(s, params, args) =~= Seq::<TokM>::empty());
    } else {
        assert(s.push(t)[0] == s[0]);
        assert(s.push(t).drop_first() =~= s.drop_first().push(t));
        lemma_subst_toks_push(s.drop_first(), t, params, args);
        assert(subst_toks(s.push(t), params, args) =~= subst_tok(s[0], params, args) + (
        subst_toks(s.drop_first(), params, args) + subst_tok(t, params, args)));
    }
}

/// Substitution distributes over concatenation.
pub proof fn lemma_subst_toks_concat(
    a: Seq<TokM>,
    b: Seq<TokM>,
    params: Seq<Seq<char>>,
    args: Seq<Seq<TokM>>,
)
    ensures
        subst_toks(a + b, params, args) =~= subst_toks(a, params, args) + subst_toks(
            b,
            params,
            args,
        ),
    decreases b.len(),
{
    if b.len() == 0 {
        assert(a + b =~= a);
    } else {
        assert(a + b =~= (a + b.drop_last()).push(b.last()));
        lemma_subst_toks_concat(a, b.drop_last(), params, args);
        lemma_subst_toks_push(a + b.drop_last(), b.last(), params, args);
        lemma_subst_toks_push(b.drop_last(), b.last(), params, args);
        assert(b.drop_last().push(b.last()) =~= b);
    }
}

/// What the whole substitution pass returns: the signature unchanged when
/// the refinement names no arguments, otherwise the simultaneous
/// substitution of the refinement arguments for the declared parameters.
pub open spec fn substituted(sig: Seq<TokM>, trait_type: Seq<TokM>, params: Seq<Seq<char>>) -> Seq<
    TokM,
> {
    let args = trait_type_args(trait_type);
    if args.len() == 0 {
        sig
    } else {
        subst_toks(sig, params, args)
    }
}

/// The position of `name` among the declared parameter names, if any.
fn find_param(params: &Vec<String>, name: &str) -> (r: Option<usize>)
    ensures
        match r {
            Some(k) => param_index(names_model(params@), name@) == Some(k as int),
            None => param_index(names_model(params@), name@) is None,
        },
{
    let ghost ps = names_model(params@);
    let mut i: usize = 0;
    while i < params.len()
        invariant
            i <= params.len(),
            ps == names_model(params@),
            param_index_from(ps, name@, 0) == param_index_from(ps, name@, i as int),
        decreases params.len() - i,
    {
        if str_eq(params[i].as_str(), name) {
            return Some(i);
        }
        i += 1;
    }
    None
}

/// Substitute type parameters in a signature based on the variant's
/// refinement type: with enum parameters `[A, B]` and refinement
/// `Pair<B, A>`, every `A` becomes `B` and every `B` becomes `A`, in one
/// simultaneous pass.
pub fn substitute_type_params(
    sig: &Vec<Tok>,
    trait_type: &Vec<Tok>,
    enum_params: &Vec<String>,
) -> (r: Vec<Tok>)
    ensures
        toks(r@) =~= substituted(toks(sig@), toks(trait_type@), names_model(enum_params@)),
{
    let ghost s = toks(sig@);
    let ghost ps = names_model(enum_params@);
    let args = extract_trait_type_args(trait_type);
    let ghost ags = tys_model(args@);
    if args.len() == 0 {
        return clone_toks(sig);
    }
    let mut out: Vec<Tok> = Vec::new();
    let mut i: usize = 0;
    while i < sig.len()
        invariant
            i <= sig.len(),
            s == toks(sig@),
            ps == names_model(enum_params@),
            ags == tys_model(args@),
            ags == trait_type_args(toks(trait_type@)),
            ags.len() > 0,
            toks(out@) =~= subst_toks(s.subrange(0, i as int), ps, ags),
        decreases sig.len() - i,
    {
        let t = &sig[i];
        let ghost tm = s[i as int];
        proof {
            assert(s.subrange(0, i + 1) =~= s.subrange(0, i as int).push(tm));
            lemma_subst_toks_push(s.subrange(0, i as int), tm, ps, ags);
        }
        let replaced: bool;
        match t {
            Tok::Id(name) => {
                match find_param(enum_params, name.as_str()) {
                    Some(k) => {
                        if k < args.len() {
                            extend_toks(&mut out, &args[k]);
                            replaced = true;
                        } else {
                            replaced = false;
                        }
                    },
                    None => {
                        replaced = false;
                    },
                }
            },
            _ => {
                replaced = false;
            },
        }
        if !replaced {
            let c = t.clone();
            proof {
                lemma_toks_push(out@, c);
            }
            out.push(c);
        }
        i += 1;
    }
    proof {
        assert(s.subrange(0, s.len() as int) =~= s);
    }
    out
}

/// The arguments standing for a two-parameter permutation refinement: the
/// second parameter's name for the first, the first's for the second.
pub open spec fn swap_args(a: Seq<char>, b: Seq<char>) -> Seq<Seq<TokM>> {
    seq![seq![TokM::Id(b)], seq![TokM::Id(a)]]
}

/// Positional correctness of refinement substitution: the token naming the
/// `i`-th declared parameter is replaced by exactly the `i`-th refinement
/// argument, whatever the other arguments are.
pub proof fn lemma_substitution_positional(
    params: Seq<Seq<char>>,
    args: Seq<Seq<TokM>>,
    i: int,
)
    requires
        0 <= i < params.len(),
        i < args.len(),
        forall|j: int| 0 <= j < i ==> params[j] != params[i],
    ensures
        subst_tok(TokM::Id(params[i]), params, args) == args[i],
{
    lemma_param_index_first(params, i);
}

/// A permutation refinement substitutes positionally, not sequentially:
/// rewriting a signature under the swapped refinement `<B, A>` of a union
/// declared `<A, B>` twice restores the signature, which could not hold if
/// the second replacement clobbered the result of the first.
pub proof fn lemma_permutation_substitution_involutive(s: Seq<TokM>, a: Seq<char>, b: Seq<char>)
    requires
        a != b,
    ensures
        subst_toks(subst_toks(s, seq![a, b], swap_args(a, b)), seq![a, b], swap_args(a, b)) =~= s,
    decreases s.len(),
{
    let ps = seq![a, b];
    let ags = swap_args(a, b);
    if s.len() == 0 {
    } else {
        let t = s[0];
        let rest = s.drop_first();
        lemma_permutation_substitution_involutive(rest, a, b);
        lemma_subst_toks_concat(subst_tok(t, ps, ags), subst_toks(rest, ps, ags), ps, ags);
        assert(param_index(ps, a) == Some(0int)) by {
            assert(ps[0] == a);
        }
        assert(param_index(ps, b) == Some(1int)) by {
            assert(ps[0] != b && ps[1] == b);
            assert(param_index_from(ps, b, 1) == Some(1int));
        }
        assert(subst_toks(subst_tok(t, ps, ags), ps, ags) =~= seq![t]) by {
            lemma_subst_toks_singleton(TokM::Id(a), ps, ags);
            lemma_subst_toks_singleton(TokM::Id(b), ps, ags);
            lemma_subst_toks_singleton(t, ps, ags);
            match t {
                TokM::Id(n) => {
                    if n == a {
                        assert(subst_tok(t, ps, ags) == seq![TokM::Id(b)]);
                        assert(subst_tok(TokM::Id(b), ps, ags) == seq![TokM::Id(a)]);
                        assert(seq![TokM::Id(a)] =~= seq![t]);
                    } else if n == b {
                        assert(subst_tok(t, ps, ags) == seq![TokM::Id(a)]);
                        assert(subst_tok(TokM::Id(a), ps, ags) == seq![TokM::Id(b)]);
                        assert(seq![TokM::Id(b)] =~= seq![t]);
                    } else {
                        assert(param_index_from(ps, n, 2) is None);
                        assert(param_index_from(ps, n, 1) is None);
                        assert(param_index(ps, n) is None);
                        assert(subst_tok(t, ps, ags) == seq![t]);
                    }
                },
                _ => {
                    assert(subst_tok(t, ps, ags) == seq![t]);
                },
            }
        }
        assert(subst_toks(s, ps, ags) =~= subst_tok(t, ps, ags) + subst_toks(rest, ps, ags));
        assert(seq![t] + rest =~= s);
    }
}

/// True when some name in the list is `n`.
pub open spec fn contains_name(names: Seq<Seq<char>>, n: Seq<char>) -> bool {
    exists|i: int| 0 <= i < names.len() && names[i] == n
}

/// Whether `merge_generics` keeps an enum-level parameter: it must be used
/// by the variant and not shadow a variant-level parameter of the same name.
pub open spec fn merge_keeps(p: TypeParamM, vnames: Seq<Seq<char>>, used: Seq<Seq<char>>) -> bool {
    contains_name(used, p.name) && !contains_name(vnames, p.name)
}

/// The scan behind `merge_generics`: appends, in declaration order, the
/// enum-level parameters that the variant uses and does not shadow.
pub open spec fn merge_scan(
    ep: Seq<TypeParamM>,
    i: int,
    vnames: Seq<Seq<char>>,
    used: Seq<Seq<char>>,
    acc: Seq<TypeParamM>,
) -> Seq<TypeParamM>
    decreases ep.len() - i,
{
    if i < 0 || i >= ep.len() {
        acc
    } else if merge_keeps(ep[i], vnames, used) {
        merge_scan(ep, i + 1, vnames, used, acc.push(ep[i]))
    } else {
        merge_scan(ep, i + 1, vnames, used, acc)
    }
}

/// What merging yields: the variant's own parameters first, then the
/// enum-level parameters that the variant uses and does not shadow, in
/// declaration order.
pub open spec fn merged_generics(
    vp: Seq<TypeParamM>,
    ep: Seq<TypeParamM>,
    used: Seq<Seq<char>>,
) -> Seq<TypeParamM> {
    merge_scan(ep, 0, param_names(vp), used, vp)
}

/// True when `name` occurs in the list.
fn names_contain(names: &Vec<String>, name: &str) -> (r: bool)
    ensures
        r == contains_name(names_model(names@), name@),
{
    let mut i: usize = 0;
    while i < names.len()
        invariant
            i <= names.len(),
            forall|j: int| 0 <= j < i ==> names_model(names@)[j] != name@,
        decreases names.len() - i,
    {
        if str_eq(names[i].as_str(), name) {
            proof {
                assert(names_model(names@)[i as int] == name@);
            }
            return true;
        }
        i += 1;
    }
    false
}

/// Merge variant-level generics with enum-level generics: variant-level
/// parameters take precedence and come first; enum-level parameters are
/// kept only when used and not shadowed.
pub fn merge_generics(
    variant_generics: &GenericsDecl,
    enum_generics: &GenericsDecl,
    used_enum_params: &Vec<String>,
) -> (r: GenericsDecl)
    ensures
        r@ =~= merged_generics(variant_generics@, enum_generics@, names_model(used_enum_params@)),
{
    let ghost vnames = param_names(variant_generics@);
    let ghost used = names_model(used_enum_params@);
    let ghost ep = enum_generics@;
    let mut merged = variant_generics.clone();
    let variant_names = collect_ordered_type_params(variant_generics);
    let mut i: usize = 0;
    while i < enum_generics.params.len()
        invariant
            i <= enum_generics.params.len(),
            names_model(variant_names@) =~= vnames,
            used == names_model(used_enum_params@),
            ep == enum_generics@,
            merged_generics(variant_generics@, ep, used) == merge_scan(
                ep,
                i as int,
                vnames,
                used,
                merged@,
            ),
        decreases enum_generics.params.len() - i,
    {
        let p = &enum_generics.params[i];
        let ghost pm = ep[i as int];
        let keep = names_contain(used_enum_params, p.name.as_str()) && !names_contain(
            &variant_names,
            p.name.as_str(),
        );
        proof {
            assert(keep == merge_keeps(pm, vnames, used));
        }
        if keep {
            let c = p.clone();
            proof {
                lemma_params_push(merged.params@, c);
                assert(merged@.push(c@) =~= merged@.push(pm));
            }
            merged.params.push(c);
        }
        i += 1;
    }
    merged
}

} // verus!
