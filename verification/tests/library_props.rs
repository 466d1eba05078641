//! Exact expected values for the lexer, the substitution engine, the
//! pattern transforms and the error cases.

use enum_typer::ast::GenericsDecl;
use enum_typer::helpers::{
    extract_trait_type_args,
    merge_generics,
    strip_pattern_generics,
    substitute_type_params,
};
use enum_typer::lexer::{tokenize, LexError};
use enum_typer::match_macro::{match_impl, transform_pattern_add_rest, Probes, RefArmKind};
use enum_typer::tok::toks_equal;
use enum_typer::pattern_parser::{
    extract_generics_from_type_hint,
    extract_type_and_pattern,
    parse_match_t,
};
use enum_typer::tok::Tok;
use enum_typer::type_enum;

fn toks(src: &str) -> Vec<Tok> {
    tokenize(src).unwrap()
}

#[test]
fn test_lexer_exact_tokens() {
    let ts = toks("enum A<T> { B(T) : A<i32> -> 'static }");
    assert_eq!(ts.len(), 18);
    assert!(matches!(&ts[0], Tok::Id(s) if s == "enum"));
    assert!(matches!(&ts[1], Tok::Id(s) if s == "A"));
    assert!(matches!(&ts[2], Tok::Lt));
    assert!(matches!(&ts[3], Tok::Id(s) if s == "T"));
    assert!(matches!(&ts[4], Tok::Gt));
    assert!(matches!(&ts[5], Tok::LBrace));
    assert!(matches!(&ts[6], Tok::Id(s) if s == "B"));
    assert!(matches!(&ts[7], Tok::LParen));
    assert!(matches!(&ts[8], Tok::Id(s) if s == "T"));
    assert!(matches!(&ts[9], Tok::RParen));
    assert!(matches!(&ts[10], Tok::Colon));
    assert!(matches!(&ts[11], Tok::Id(s) if s == "A"));
    assert!(matches!(&ts[12], Tok::Lt));
    assert!(matches!(&ts[13], Tok::Id(s) if s == "i32"));
    assert!(matches!(&ts[14], Tok::Gt));
    assert!(matches!(&ts[15], Tok::Arrow));
    assert!(matches!(&ts[16], Tok::Lifetime(s) if s == "static"));
    assert!(matches!(&ts[17], Tok::RBrace));
}

#[test]
fn test_lexer_literals() {
    let ts = toks(r#"f(5.0, 42, "a b")"#);
    assert!(matches!(&ts[2], Tok::Lit(s) if s == "5.0"));
    assert!(matches!(&ts[4], Tok::Lit(s) if s == "42"));
    assert!(matches!(&ts[6], Tok::Lit(s) if s == "\"a b\""));
}

#[test]
fn test_lexer_unterminated_string() {
    assert!(matches!(tokenize("x = \"abc"), Err(LexError::UnterminatedString)));
    assert!(matches!(tokenize("a ' b"), Err(LexError::EmptyLifetime)));
}

#[test]
fn test_substitution_swaps_simultaneously() {
    // A permutation refinement must replace both parameters in one pass:
    // sequential replacement would clobber the first result.
    let params = vec![String::from("A"), String::from("B")];
    let sig = toks("fn get(&self) -> (&A, &B)");
    let swapped = substitute_type_params(&sig, &toks("Pair<B, A>"), &params);
    assert!(toks_equal(&swapped, &toks("fn get(&self) -> (&B, &A)")));
    // Substituting under the swap twice restores the signature.
    let back = substitute_type_params(&swapped, &toks("Pair<B, A>"), &params);
    assert!(toks_equal(&back, &sig));
}

#[test]
fn test_substitution_positional() {
    let params = vec![String::from("A"), String::from("B")];
    let sig = toks("fn pack(a: A, b: B) -> A");
    let out = substitute_type_params(&sig, &toks("Pair<i32, bool>"), &params);
    assert!(toks_equal(&out, &toks("fn pack(a: i32, b: bool) -> i32")));
    // A refinement without arguments leaves the signature unchanged.
    let same = substitute_type_params(&sig, &toks("Pair"), &params);
    assert!(toks_equal(&same, &sig));
}

#[test]
fn test_trait_type_args_nested() {
    let args = extract_trait_type_args(&toks("Pair<Box<A>, B>"));
    assert_eq!(args.len(), 2);
    assert!(toks_equal(&args[0], &toks("Box<A>")));
    assert!(toks_equal(&args[1], &toks("B")));
}

#[test]
fn test_strip_pattern_generics_exact() {
    let out = strip_pattern_generics(&toks("Lift<i32>(x)"));
    assert!(toks_equal(&out, &toks("Lift(x)")));
    let nested = strip_pattern_generics(&toks("Cons<Vec<T>, E>(head, tail)"));
    assert!(toks_equal(&nested, &toks("Cons(head, tail)")));
}

#[test]
fn test_extract_type_and_pattern_exact() {
    let (name, pattern) = extract_type_and_pattern(&toks("Leaf<i32>(x)"));
    assert!(toks_equal(&name, &toks("Leaf<i32>")));
    assert!(toks_equal(&pattern, &toks("Leaf(x)")));
    let (name2, pattern2) = extract_type_and_pattern(&toks("Rectangle { width, height }"));
    assert!(toks_equal(&name2, &toks("Rectangle")));
    assert!(toks_equal(&pattern2, &toks("Rectangle { width, height }")));
}

#[test]
fn test_type_hint_generics() {
    let g = extract_generics_from_type_hint(&toks("Tree<i32>")).unwrap();
    assert!(toks_equal(&g, &toks("<i32>")));
    assert!(extract_generics_from_type_hint(&toks("Tree")).is_none());
}

#[test]
fn test_transform_pattern_add_rest_exact() {
    // The rest placeholder makes the pattern ignore the record's trailing
    // nominal marker field.
    let out = transform_pattern_add_rest(&toks("Text { content, sender }"));
    assert!(toks_equal(&out, &toks("Text { content, sender, .. }")));
    let tup = transform_pattern_add_rest(&toks("Inl(a)"));
    assert!(toks_equal(&tup, &toks("Inl(a, ..)")));
    // One already present stands.
    let kept = transform_pattern_add_rest(&toks("Text { content, .. }"));
    assert!(toks_equal(&kept, &toks("Text { content, .. }")));
}

#[test]
fn test_merge_generics_order_and_shadowing() {
    let ts = toks("enum X<T, U, V> { Y(T) }");
    let parsed = enum_typer::enum_parser::ParsedEnum::parse(&ts).unwrap();
    let enum_gens = parsed.generics;
    let variant_gens = GenericsDecl {
        params: vec![enum_typer::ast::TypeParam { name: String::from("U"), bounds: Vec::new() }],
    };
    let used = vec![String::from("T"), String::from("U")];
    let merged = merge_generics(&variant_gens, &enum_gens, &used);
    // Variant parameters come first; a used enum parameter follows; a
    // shadowed one is not repeated; an unused one is dropped.
    assert_eq!(merged.params.len(), 2);
    assert_eq!(merged.params[0].name, "U");
    assert_eq!(merged.params[1].name, "T");
}

#[test]
fn test_move_lowering_keeps_arm_order() {
    let req = toks("match move x { A(a) => 1, B(b) => 2, A(z) => 3, }");
    let plan = match_impl(&req).unwrap();
    assert!(plan.is_move);
    match &plan.probes {
        Probes::Move(ps) => {
            assert_eq!(ps.len(), 3);
            assert!(toks_equal(&ps[0].variant, &toks("A")));
            assert!(toks_equal(&ps[1].variant, &toks("B")));
            assert!(toks_equal(&ps[2].variant, &toks("A")));
            assert!(toks_equal(&ps[0].pattern, &toks("A(a, ..)")));
        },
        Probes::Ref(_) => panic!("a move request lowers to transferring probes"),
    }
}

#[test]
fn test_parse_error_cases() {
    // Wrong leading keyword.
    assert!(type_enum("struct Foo { A(i32) }").is_err());
    // Unbalanced delimiters.
    assert!(type_enum("enum Foo { A(i32 }").is_err());
    // A variant missing its separator.
    assert!(type_enum("enum Foo { A(i32) B(u8) }").is_err());
    // An operation body missing its closing arm list.
    assert!(type_enum("enum Foo { A(i32) } fn f(&self) -> i32 ").is_err());
    // A dispatch request with no arm list.
    assert!(enum_typer::match_t("x ").is_err());
    let ts = toks("move x");
    assert!(parse_match_t(&ts).is_err());
}

#[test]
fn test_match_t_with_type_hint() {
    let plan = enum_typer::match_t(
        "move tree as Tree<i32> {
            Leaf(value) => value,
            Node(left, right) => 0,
    }",
    )
    .unwrap();
    assert!(plan.is_move);
    assert_eq!(plan.probes.len(), 2);
    // The hint's arguments reach each probe's bare type name.
    assert!(toks_equal(&plan.probes[0].probe_ty, &toks("Leaf<i32>")));
    assert!(toks_equal(&plan.probes[1].probe_ty, &toks("Node<i32>")));
}

#[test]
fn test_ref_lowering_classification() {
    let req = toks(
        "match x { A(v) => v, B(n) => *n, C(w) => w + 1, D(_) => 0, E(v as &u8) => *v, }",
    );
    let plan = match_impl(&req).unwrap();
    assert!(!plan.is_move);
    match &plan.probes {
        Probes::Ref(ps) => {
            assert_eq!(ps.len(), 5);
            // A binding handed back whole is re-specialized by inference.
            assert!(matches!(ps[0].kind, RefArmKind::BindWhole));
            // A dereferenced binding has its value copied out.
            assert!(matches!(ps[1].kind, RefArmKind::BindDeref));
            // A binding used any other way.
            assert!(matches!(ps[2].kind, RefArmKind::BindOther));
            // A wildcard matches structurally, with no re-specialization.
            assert!(matches!(ps[3].kind, RefArmKind::Destructure));
            // An explicit ascription supplies the target type.
            assert!(matches!(ps[4].kind, RefArmKind::BindDeref));
            assert!(toks_equal(ps[4].cast_ty.as_ref().unwrap(), &toks("&u8")));
            assert!(toks_equal(&ps[4].inner_pattern, &toks("v")));
        },
        Probes::Move(_) => panic!("a borrowed request lowers to accessor probes"),
    }
}
