//! The indexed-syntax parser on a small declaration.

use enum_typer::lexer::tokenize;
use enum_typer::types::GadtEnum;

#[test]
fn test_parse_simple_variant() {
    let ts = tokenize(
        "
        pub enum Either<L, R> {
            Left: L -> Either<L, R>,
            Right: R -> Either<L, R>
        }
    ",
    )
    .unwrap();
    let input = GadtEnum::parse(&ts).unwrap();

    assert_eq!(input.name, "Either");
    assert_eq!(input.variants.len(), 2);
    assert_eq!(input.variants[0].name, "Left");
    assert_eq!(input.variants[0].param_types.len(), 1);
}
