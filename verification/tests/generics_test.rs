//! The indexed (GADT-style) declarations: parsing, generation, inline
//! dispatch lowering, and the runtime dispatch over the generated handles.

use enum_typer::codegen::generate_gadt_code;
use enum_typer::dispatch::{dispatch_ref, Handle};
use enum_typer::lexer::tokenize;
use enum_typer::match_macro::{match_impl, Probes};
use enum_typer::types::GadtEnum;

fn parse_gadt(src: &str) -> GadtEnum {
    let ts = tokenize(src).unwrap();
    GadtEnum::parse(&ts).unwrap()
}

#[test]
fn test_generic_enum() {
    let gadt = parse_gadt(
        "
        pub enum Either<L, R> {
            Left: L -> Either<L, R>,
            Right: R -> Either<L, R>,
        }
    ",
    );
    let generated = generate_gadt_code(&gadt);
    assert_eq!(generated.records.len(), 2);
    assert_eq!(generated.interface.accessors.len(), 2);
    assert_eq!(generated.records[0].name, "Left");
    assert_eq!(generated.records[1].name, "Right");

    // Lower the two inline dispatch requests, in arm order.
    let req = tokenize("match a { Left(_) => true, Right(_) => false, }").unwrap();
    let plan = match_impl(&req).unwrap();
    assert!(!plan.is_move);
    match &plan.probes {
        Probes::Ref(ps) => {
            assert_eq!(ps.len(), 2);
            assert_eq!(ps[0].variant.len(), 1);
        },
        Probes::Move(_) => panic!("a request without move lowers to borrowed probes"),
    }

    // Run them: Left holds tag 0, Right tag 1.
    let a = Handle { tag: 0u64, payload: 12i32 };
    let arm_tags = vec![0u64, 1];
    let (idx, _) = dispatch_ref(&a, &arm_tags).expect("No matching type found");
    let is_left = match idx {
        0 => true,
        1 => false,
        _ => unreachable!(),
    };
    assert_eq!(is_left, true);

    let b = Handle { tag: 1u64, payload: 42i32 };
    let (idx2, _) = dispatch_ref(&b, &arm_tags).expect("No matching type found");
    let is_right_false = match idx2 {
        0 => false,
        1 => true,
        _ => unreachable!(),
    };
    assert_eq!(is_right_false, true);
}

#[test]
fn test_generic_enum2() {
    let gadt = parse_gadt(
        "
        pub enum T<A> {
            D1 : i32 -> T<String>,
            D2 : T<bool>,
            D3 : (A, A) -> T<A>,
        }
    ",
    );
    assert_eq!(gadt.variants.len(), 3);
    // D1 takes one constructor parameter; D2 none; D3 one tuple parameter.
    assert_eq!(gadt.variants[0].param_types.len(), 1);
    assert_eq!(gadt.variants[1].param_types.len(), 0);
    assert_eq!(gadt.variants[2].param_types.len(), 1);

    let generated = generate_gadt_code(&gadt);
    assert_eq!(generated.records.len(), 3);

    let x = Handle { tag: 0u64, payload: 100i32 };
    assert_eq!(x.payload, 100);
}
