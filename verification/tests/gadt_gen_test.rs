//! The indexed-style generator: records carry every declared parameter
//! nominally, and each variant's accessor takes the shape its arity and
//! local parameters call for.

use enum_typer::codegen::{generate_gadt_code, AccessorResult};
use enum_typer::lexer::tokenize;
use enum_typer::types::GadtEnum;

fn generate(src: &str) -> enum_typer::codegen::GadtGenerated {
    let ts = tokenize(src).unwrap();
    let gadt = GadtEnum::parse(&ts).unwrap();
    generate_gadt_code(&gadt)
}

#[test]
fn test_unused_params_carried_nominally() {
    // OnlyA's field mentions A alone, a strict subset of the declared
    // parameters; the generated record still carries A and B, and its
    // nominal marker names both, so neither is omitted.
    let g = generate(
        "
        enum P<A, B> {
            OnlyA : A -> P<A, B>,
        }
    ",
    );
    assert_eq!(g.records.len(), 1);
    let rec = &g.records[0];
    assert_eq!(rec.generics.len(), 2);
    assert_eq!(rec.generics[0], "A");
    assert_eq!(rec.generics[1], "B");
    assert_eq!(rec.marker, rec.generics);
}

#[test]
fn test_accessor_shapes() {
    let g = generate(
        "
        enum Shapes<T> {
            None0 : Shapes<T>,
            One : i32 -> Shapes<T>,
            OneLocal<U> : U -> Shapes<T>,
            Two : i32 -> bool -> Shapes<T>,
            TwoLocal<U> : U -> U -> Shapes<T>,
        }
    ",
    );
    assert_eq!(g.records.len(), 5);
    assert!(matches!(&g.records[0].accessor.result, AccessorResult::UnitResult));
    assert!(matches!(&g.records[1].accessor.result, AccessorResult::Direct(_)));
    assert!(matches!(&g.records[2].accessor.result, AccessorResult::Erased));
    assert!(matches!(&g.records[3].accessor.result, AccessorResult::DirectTuple(_)));
    assert!(matches!(&g.records[4].accessor.result, AccessorResult::ErasedTuple(2)));
    // The interface declares one hidden accessor per variant, in order.
    assert_eq!(g.interface.accessors.len(), 5);
    assert_eq!(g.interface.accessors[0].variant, "None0");
    assert_eq!(g.interface.accessors[4].variant, "TwoLocal");
}

#[test]
fn test_record_fields_and_interface() {
    let g = generate(
        "
        pub enum Sum<A, B> {
            Inl : A -> Sum<A, B>,
            Inr : B -> Sum<A, B>,
        }
    ",
    );
    assert_eq!(g.interface.name, "Sum");
    assert_eq!(g.interface.generics.params.len(), 2);
    assert_eq!(g.records.len(), 2);
    assert_eq!(g.records[0].trait_name, "Sum");
    assert_eq!(g.records[0].trait_args, vec![String::from("A"), String::from("B")]);
    assert_eq!(g.records[0].fields.len(), 1);
}
