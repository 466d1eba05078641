//! Declarations and dispatch requests of the main examples: expansion
//! checked against the declaration, runtime behavior played out through the
//! dispatch model.

use enum_typer::dispatch::{dispatch_move, dispatch_ref, Handle};
use enum_typer::lexer::tokenize;
use enum_typer::tok::toks_equal;
use enum_typer::{match_t, type_enum};

fn toks(src: &str) -> Vec<enum_typer::tok::Tok> {
    tokenize(src).unwrap()
}

#[derive(Debug)]
enum ShapePayload {
    Circle(f64),
    Rectangle(f64, f64),
    Triangle { base: f64, height: f64 },
}

#[test]
fn test_enum_to_trait() {
    let g = type_enum(
        "
        pub enum Shape {
            Circle(f64): Shape,
            Rectangle(f64, f64): Shape,
            Triangle { base: f64, height: f64 }: Shape,
        }
    ",
    )
    .unwrap();
    assert_eq!(g.variants.len(), 3);
    assert_eq!(g.trait_name, "Shape");

    // Borrowed dispatch on a Circle against the three arms.
    let plan = match_t(
        "figure {
            Circle(_) => true,
            Rectangle(_, _) => false,
            Triangle { .. } => false,
    }",
    )
    .unwrap();
    assert!(!plan.is_move);
    assert_eq!(plan.probes.len(), 3);
    assert!(toks_equal(&plan.probes[0].probe_ty, &toks("Circle")));

    let figure = Handle { tag: 0u64, payload: ShapePayload::Circle(5.0) };
    let probes = vec![0u64, 1, 2];
    let (idx, _) = dispatch_ref(&figure, &probes).expect("No matching type found");
    let is_circle = match idx {
        0 => true,
        1 => false,
        2 => false,
        _ => unreachable!(),
    };
    assert!(is_circle);

    // Transferred dispatch on a Rectangle, each arm computing an area.
    let plan2 = match_t(
        "move figure {
            Circle(radius) => 3.14 * radius * radius,
            Rectangle(width, height) => width * height,
            Triangle { base, height } => 0.5 * base * height,
    }",
    )
    .unwrap();
    assert!(plan2.is_move);
    assert_eq!(plan2.probes.len(), 3);

    let figure = Handle { tag: 1u64, payload: ShapePayload::Rectangle(4.0, 6.0) };
    let (_, payload) = dispatch_move(figure, &probes).expect("No matching type found");
    let area = match payload {
        ShapePayload::Circle(radius) => 3.14 * radius * radius,
        ShapePayload::Rectangle(width, height) => width * height,
        ShapePayload::Triangle { base, height } => 0.5 * base * height,
    };
    assert_eq!(area, 24.0);
}

#[derive(Debug)]
enum DataPayload {
    Text(String),
    Numbers(Vec<i32>),
}

#[test]
fn test_move_non_copy_types() {
    // A non-Copy payload proves the transferred dispatch moves, not copies.
    let g = type_enum(
        "
        pub enum Data {
            Text(String): Data,
            Numbers(Vec<i32>): Data,
        }
    ",
    )
    .unwrap();
    assert_eq!(g.variants.len(), 2);

    let probes = vec![0u64, 1];
    let data = Handle { tag: 0u64, payload: DataPayload::Text(String::from("Hello, World!")) };
    let (_, payload) = dispatch_move(data, &probes).expect("No matching type found");
    let message = match payload {
        DataPayload::Text(s) => s,
        DataPayload::Numbers(v) => format!("{:?}", v),
    };
    assert_eq!(message, "Hello, World!");

    let data2 = Handle { tag: 1u64, payload: DataPayload::Numbers(vec![1, 2, 3]) };
    let (_, payload2) = dispatch_move(data2, &probes).expect("No matching type found");
    let nums = match payload2 {
        DataPayload::Text(_) => vec![],
        DataPayload::Numbers(v) => v,
    };
    assert_eq!(nums, vec![1, 2, 3]);
}

#[derive(Debug)]
enum EitherPayload {
    Right(i32),
    Left(String),
}

#[test]
fn test_enum_generics() {
    let g = type_enum(
        "
        pub enum Either<A, E> {
            Right(A),
            Left(E),
        }
    ",
    )
    .unwrap();
    assert_eq!(g.variants.len(), 2);
    // Each record keeps only the parameter its field mentions.
    assert_eq!(g.variants[0].record.generics.params.len(), 1);
    assert_eq!(g.variants[0].record.generics.params[0].name, "A");
    assert_eq!(g.variants[1].record.generics.params.len(), 1);
    assert_eq!(g.variants[1].record.generics.params[0].name, "E");

    let plan = match_t(
        "move result {
            Right<i32>(x) => x,
            Left<i32>(e) => e,
    }",
    )
    .unwrap();
    assert!(plan.is_move);
    assert_eq!(plan.probes.len(), 2);
    // Pattern generics stay on the probe type and leave the pattern.
    assert!(toks_equal(&plan.probes[0].probe_ty, &toks("Right<i32>")));
    assert!(toks_equal(&plan.probes[0].pattern, &toks("Right(x)")));

    let probes = vec![0u64, 1];
    let result = Handle { tag: 0u64, payload: EitherPayload::Right(42) };
    let (_, payload) = dispatch_move(result, &probes).expect("No matching type found");
    let value = match payload {
        EitherPayload::Right(x) => format!("Success: {}", x),
        EitherPayload::Left(e) => format!("Error: {}", e),
    };
    assert_eq!(value, "Success: 42");

    let error = Handle { tag: 1u64, payload: EitherPayload::Left(String::from("oops")) };
    let (_, payload2) = dispatch_move(error, &probes).expect("No matching type found");
    let msg = match payload2 {
        EitherPayload::Right(x) => format!("Value: {}", x),
        EitherPayload::Left(e) => format!("Error: {}", e),
    };
    assert_eq!(msg, "Error: oops");
}

#[derive(Debug)]
enum MessagePayload {
    Text { content: String, sender: String },
    Info(String),
    Private { content: String },
}

#[test]
fn test_visibility_modifiers() {
    let g = type_enum(
        "
        pub enum Message {
            Text { content: String, sender: String }: Message,
            Info(String): Message,
            Private { content: String }: Message,
        }
    ",
    )
    .unwrap();
    assert_eq!(g.variants.len(), 3);
    // The declared visibility carries over to each record.
    assert!(toks_equal(&g.variants[0].record.vis, &toks("pub")));

    let probes = vec![0u64, 1, 2];
    let msg = Handle {
        tag: 0u64,
        payload: MessagePayload::Text {
            content: String::from("Hello"),
            sender: String::from("Alice"),
        },
    };
    let (_, payload) = dispatch_move(msg, &probes).expect("No matching type found");
    let result = match payload {
        MessagePayload::Text { content, sender } => format!("{}: {}", sender, content),
        MessagePayload::Info(s) => s,
        MessagePayload::Private { content } => content,
    };
    assert_eq!(result, "Alice: Hello");
}

#[derive(Debug)]
enum TermPayload {
    Number(i32),
    Add(Box<Handle<TermPayload>>, Box<Handle<TermPayload>>),
}

fn term_eval(e: Handle<TermPayload>) -> i32 {
    // Tags follow the declaration: Lift 0, Boolean 1, Number 2, Add 3, Or 4.
    let probes = vec![0u64, 1, 2, 3, 4];
    let (_, payload) = dispatch_move(e, &probes).expect("No matching type found");
    match payload {
        TermPayload::Number(n) => n,
        TermPayload::Add(l, r) => term_eval(*l) + term_eval(*r),
    }
}

#[test]
fn test_tagless_final() {
    let g = type_enum(
        "
        pub enum Term<T: Clone> {
            Lift(T): Term<T>,
            Boolean(bool): Term<bool>,
            Number(i32): Term<i32>,
            Add(Box<dyn Term<i32>>, Box<dyn Term<i32>>): Term<i32>,
            Or(Box<dyn Term<bool>>, Box<dyn Term<bool>>): Term<bool>,
        }

        fn eval(&self) -> T {
            Lift<T>(value) => value.clone(),
            Number(n) => *n,
            Add(left, right) => left.eval() + right.eval(),
            Boolean(b) => *b,
            Or(left, right) => left.eval() || right.eval(),
        }
    ",
    )
    .unwrap();
    assert_eq!(g.variants.len(), 5);

    let number_10 = Handle { tag: 2u64, payload: TermPayload::Number(10) };
    let number_20 = Handle { tag: 2u64, payload: TermPayload::Number(20) };
    let number_5 = Handle { tag: 2u64, payload: TermPayload::Number(5) };
    let inner = Handle {
        tag: 3u64,
        payload: TermPayload::Add(Box::new(number_20), Box::new(number_5)),
    };
    let expr = Handle { tag: 3u64, payload: TermPayload::Add(Box::new(number_10), Box::new(inner)) };

    println!("Result: {}", term_eval(expr));
}

#[derive(Debug)]
enum PairPayload {
    MkPair(i32, String),
    InvertedPair(String, i32),
}

#[test]
fn test_multiple_generic_params() {
    let g = type_enum(
        "
        pub enum Pair<A, B> {
            MkPair(A, B): Pair<A, B>,
            InvertedPair(B, A): Pair<B, A>,
            First(A),
            Second(B),
        }

        fn to_pair(&self) -> (&A, &B) {
            MkPair<A, B>(a, b) => (a, b),
            InvertedPair<B, A>(b, a) => (b, a),
            First<A>(a) => (a, panic!(\"No second element in First variant\")),
            Second<B>(b) => (panic!(\"No first element in Second variant\"), b),
        }

        fn to_pair_owned(self: Box<Self>) -> (A, B) {
            MkPair<A, B>(a, b) => (a, b),
            InvertedPair<B, A>(b, a) => (b, a),
            First<A>(a) => (a, panic!(\"No second element in First variant\")),
            Second<B>(b) => (panic!(\"No first element in Second variant\"), b),
        }
    ",
    )
    .unwrap();
    assert_eq!(g.variants.len(), 4);

    // Refinement substitution is positionally correct under permutation:
    // InvertedPair refines Pair<A, B> to Pair<B, A>, so its operation
    // signature swaps A and B in one simultaneous pass.
    let inverted = &g.variants[1].impl_block;
    assert!(toks_equal(&inverted.trait_type, &toks("Pair<B, A>")));
    assert!(toks_equal(&inverted.methods[0].sig, &toks("fn to_pair(&self) -> (&B, &A)")));
    assert!(toks_equal(&inverted.methods[1].sig, &toks("fn to_pair_owned(self: Box<Self>) -> (B, A)")));
    assert!(inverted.methods[1].boxed_receiver);
    // MkPair refines to Pair<A, B> itself: its signature stands unchanged.
    let straight = &g.variants[0].impl_block;
    assert!(toks_equal(&straight.methods[0].sig, &toks("fn to_pair(&self) -> (&A, &B)")));

    // The permuting pair holds 42 and "Answer"; extraction through both the
    // direct and the permuted refinement recovers them without swapping.
    let probes = vec![0u64, 1];
    let p1 = Handle { tag: 0u64, payload: PairPayload::MkPair(42, String::from("Answer")) };
    let (_, payload) = dispatch_move(p1, &probes).expect("No matching type found");
    match payload {
        PairPayload::MkPair(a, b) => {
            assert_eq!(a, 42);
            assert_eq!(b.as_str(), "Answer");
        },
        PairPayload::InvertedPair(_, _) => panic!("Unexpected variant"),
    }
    let p2 = Handle { tag: 1u64, payload: PairPayload::InvertedPair(String::from("Age"), 30) };
    let (_, payload2) = dispatch_move(p2, &probes).expect("No matching type found");
    match payload2 {
        PairPayload::MkPair(_, _) => panic!("Unexpected variant"),
        PairPayload::InvertedPair(b, a) => {
            assert_eq!(b.as_str(), "Age");
            assert_eq!(a, 30);
        },
    }
}

#[derive(Debug)]
enum ContainerPayload {
    Value(String),
    Wrapper(Box<String>),
}

#[test]
fn test_boxed_self_method() {
    let g = type_enum(
        "
        pub enum Container {
            Value(String),
            Wrapper(Box<String>),
        }

        fn unwrap(self: Box<Self>) -> String {
            Value(s) => s,
            Wrapper(boxed) => *boxed,
        }
    ",
    )
    .unwrap();
    assert_eq!(g.variants.len(), 2);
    // A consuming receiver is recognized, so extraction moves out of the
    // record instead of borrowing it.
    assert!(g.variants[0].impl_block.methods[0].boxed_receiver);
    assert!(g.variants[1].impl_block.methods[0].boxed_receiver);

    let probes = vec![0u64, 1];
    let c1 = Handle { tag: 0u64, payload: ContainerPayload::Value(String::from("Hello")) };
    let (_, payload) = dispatch_move(c1, &probes).expect("No matching type found");
    let result1 = match payload {
        ContainerPayload::Value(s) => s,
        ContainerPayload::Wrapper(boxed) => *boxed,
    };
    assert_eq!(result1, "Hello");

    let c2 = Handle {
        tag: 1u64,
        payload: ContainerPayload::Wrapper(Box::new(String::from("World"))),
    };
    let (_, payload2) = dispatch_move(c2, &probes).expect("No matching type found");
    let result2 = match payload2 {
        ContainerPayload::Value(s) => s,
        ContainerPayload::Wrapper(boxed) => *boxed,
    };
    assert_eq!(result2, "World");
}
