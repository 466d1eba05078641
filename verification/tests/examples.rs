//! The worked examples: declarations expanded by the generator, and their
//! runtime behavior played out through the dispatch model, each record a
//! tagged handle whose tag is its variant's position in the declaration.

use enum_typer::dispatch::{dispatch_move, Handle};
use enum_typer::type_enum;

#[test]
fn test_data() {
    let src = r#"
        enum Product {
            Book { title: String, author: String },
            Electronics { name: String, brand: String },
        }

        fn describe(&self) -> String {
            Book { title, author } => format!("Book: '{}' by {}", title, author),
            Electronics { name, brand } => format!("Electronics: '{}' from {}", name, brand),
        }
    "#;
    let g = type_enum(src).unwrap();
    assert_eq!(g.variants.len(), 2);
    assert_eq!(g.variants[0].record.name, "Book");
    assert_eq!(g.variants[1].record.name, "Electronics");
    assert_eq!(g.variants[0].impl_block.methods.len(), 1);
    assert_eq!(g.variants[1].impl_block.methods.len(), 1);

    let item1 = (
        String::from("The Rust Programming Language"),
        String::from("Steve Klabnik"),
    );
    let item2 = (String::from("Smartphone"), String::from("TechBrand"));
    println!("{}", describe_book(&item1.0, &item1.1));
    println!("{}", describe_electronics(&item2.0, &item2.1));
}

fn describe_book(title: &str, author: &str) -> String {
    format!("Book: '{}' by {}", title, author)
}

fn describe_electronics(name: &str, brand: &str) -> String {
    format!("Electronics: '{}' from {}", name, brand)
}

#[derive(Debug)]
enum SumPayload {
    Inl(i32),
    Inr(bool),
}

fn fold_sum<R>(sum: Handle<SumPayload>, f_inl: fn(i32) -> R, f_inr: fn(bool) -> R) -> R {
    let probes = vec![0u64, 1];
    let (idx, payload) = dispatch_move(sum, &probes).expect("No matching type found");
    match (idx, payload) {
        (0, SumPayload::Inl(a)) => f_inl(a),
        (1, SumPayload::Inr(b)) => f_inr(b),
        _ => unreachable!(),
    }
}

#[test]
fn test_inductive() {
    let src = "
        enum Sum<A, B> {
            Inl(A),
            Inr(B),
        }
    ";
    let g = type_enum(src).unwrap();
    assert_eq!(g.variants.len(), 2);
    assert_eq!(g.variants[0].record.name, "Inl");
    assert_eq!(g.variants[1].record.name, "Inr");

    let val1 = Handle { tag: 0u64, payload: SumPayload::Inl(42) };
    let val2 = Handle { tag: 1u64, payload: SumPayload::Inr(true) };

    let result1 = fold_sum(val1, |a| a, |b| if b { 1 } else { 0 });
    let result2 = fold_sum(val2, |a| a, |b| if b { 1 } else { 0 });

    assert_eq!(result1, 42);
    assert_eq!(result2, 1);
}

#[derive(Debug)]
enum ArithPayload {
    Num(i32),
    Bool(bool),
    Add(Box<Handle<ArithPayload>>, Box<Handle<ArithPayload>>),
    Mul(Box<Handle<ArithPayload>>, Box<Handle<ArithPayload>>),
    And(Box<Handle<ArithPayload>>, Box<Handle<ArithPayload>>),
    Or(Box<Handle<ArithPayload>>, Box<Handle<ArithPayload>>),
    ToBool(Box<Handle<ArithPayload>>),
    ToNum(Box<Handle<ArithPayload>>),
}

const NUM: u64 = 0;
const BOOL: u64 = 1;
const ADD: u64 = 2;
const MUL: u64 = 3;
const AND: u64 = 4;
const OR: u64 = 5;
const TO_BOOL: u64 = 6;
const TO_NUM: u64 = 7;

// The full arm list of the shared `eval` operation, in declaration order.
fn eval_num(e: Handle<ArithPayload>) -> i32 {
    let probes = vec![NUM, BOOL, ADD, MUL, AND, OR, TO_BOOL, TO_NUM];
    let (_, payload) = dispatch_move(e, &probes).expect("No matching type found");
    match payload {
        ArithPayload::Num(i) => i,
        ArithPayload::Add(l, r) => eval_num(*l) + eval_num(*r),
        ArithPayload::Mul(l, r) => eval_num(*l) * eval_num(*r),
        ArithPayload::ToNum(x) => {
            if eval_bool(*x) {
                1
            } else {
                0
            }
        },
        _ => panic!("ill-typed arithmetic"),
    }
}

fn eval_bool(e: Handle<ArithPayload>) -> bool {
    let probes = vec![NUM, BOOL, ADD, MUL, AND, OR, TO_BOOL, TO_NUM];
    let (_, payload) = dispatch_move(e, &probes).expect("No matching type found");
    match payload {
        ArithPayload::Bool(b) => b,
        ArithPayload::And(l, r) => eval_bool(*l) && eval_bool(*r),
        ArithPayload::Or(l, r) => eval_bool(*l) || eval_bool(*r),
        ArithPayload::ToBool(x) => eval_num(*x) != 0,
        _ => panic!("ill-typed arithmetic"),
    }
}

// The standalone dispatchers of the example, each with its own arm order.
fn eval2(e: Handle<ArithPayload>) -> i32 {
    let probes = vec![ADD, MUL, TO_NUM, NUM];
    let (_, payload) = dispatch_move(e, &probes).expect("No matching type found");
    match payload {
        ArithPayload::Add(l, r) => eval2(*l) + eval2(*r),
        ArithPayload::Mul(l, r) => eval2(*l) * eval2(*r),
        ArithPayload::ToNum(x) => {
            if eval1(*x) {
                1
            } else {
                0
            }
        },
        ArithPayload::Num(i) => i,
        _ => panic!("ill-typed arithmetic"),
    }
}

fn eval1(e: Handle<ArithPayload>) -> bool {
    let probes = vec![AND, OR, TO_BOOL, BOOL];
    let (_, payload) = dispatch_move(e, &probes).expect("No matching type found");
    match payload {
        ArithPayload::And(l, r) => eval1(*l) && eval1(*r),
        ArithPayload::Or(l, r) => eval1(*l) || eval1(*r),
        ArithPayload::ToBool(x) => eval2(*x) != 0,
        ArithPayload::Bool(b) => b,
        _ => panic!("ill-typed arithmetic"),
    }
}

fn mk_num(i: i32) -> Handle<ArithPayload> {
    Handle { tag: NUM, payload: ArithPayload::Num(i) }
}

fn mk_add(l: Handle<ArithPayload>, r: Handle<ArithPayload>) -> Handle<ArithPayload> {
    Handle { tag: ADD, payload: ArithPayload::Add(Box::new(l), Box::new(r)) }
}

fn mk_mul(l: Handle<ArithPayload>, r: Handle<ArithPayload>) -> Handle<ArithPayload> {
    Handle { tag: MUL, payload: ArithPayload::Mul(Box::new(l), Box::new(r)) }
}

fn mk_and(l: Handle<ArithPayload>, r: Handle<ArithPayload>) -> Handle<ArithPayload> {
    Handle { tag: AND, payload: ArithPayload::And(Box::new(l), Box::new(r)) }
}

fn mk_to_bool(x: Handle<ArithPayload>) -> Handle<ArithPayload> {
    Handle { tag: TO_BOOL, payload: ArithPayload::ToBool(Box::new(x)) }
}

#[test]
fn test_arith() {
    let src = "
        enum Arith<T> {
            Num(i32) : Arith<i32>,
            Bool(bool) : Arith<bool>,
            Add(ArithRef<i32>, ArithRef<i32>) : Arith<i32>,
            Mul(ArithRef<i32>, ArithRef<i32>) : Arith<i32>,
            And(ArithRef<bool>, ArithRef<bool>) : Arith<bool>,
            Or(ArithRef<bool>, ArithRef<bool>) : Arith<bool>,
            ToBool(ArithRef<i32>) : Arith<bool>,
            ToNum(ArithRef<bool>) : Arith<i32>,
        }

        fn eval(&self) -> T {
            Num(i) => *i,
            Bool(b) => *b,
            Add(lhs, rhs) => lhs.eval() + rhs.eval(),
            Mul(lhs, rhs) => lhs.eval() * rhs.eval(),
            And(lhs, rhs) => lhs.eval() && rhs.eval(),
            Or(lhs, rhs) => lhs.eval() || rhs.eval(),
            ToBool(expr) => expr.eval() != 0,
            ToNum(expr) => if expr.eval() { 1 } else { 0 },
        }
    ";
    let g = type_enum(src).unwrap();
    assert_eq!(g.variants.len(), 8);
    assert_eq!(g.method_sigs.len(), 1);

    let expr = mk_add(mk_num(10), mk_mul(mk_num(2), mk_num(3)));
    let expr2 = mk_and(mk_to_bool(mk_num(0)), mk_to_bool(mk_num(5)));

    assert_eq!(eval_num(expr), 16);
    assert_eq!(eval_bool(expr2), false);

    let expr = mk_add(mk_num(10), mk_mul(mk_num(2), mk_num(3)));
    let expr2 = mk_and(mk_to_bool(mk_num(0)), mk_to_bool(mk_num(5)));

    assert_eq!(eval2(expr), 16);
    assert_eq!(eval1(expr2), false);
}

#[derive(Debug)]
enum ListPayload {
    Nil,
    Cons(i32, Box<Handle<ListPayload>>),
}

fn safe_head(list: Handle<ListPayload>) -> i32 {
    // The dispatch names only the Cons variant: the handle's refinement
    // (a provably non-empty list) guarantees the probe matches.
    let probes = vec![1u64];
    let (_, payload) = dispatch_move(list, &probes).expect("No matching type found");
    match payload {
        ListPayload::Cons(head, _tail) => head,
        _ => unreachable!(),
    }
}

#[test]
fn test_safe_list() {
    let src = "
        enum SafeList<T, E> {
            Nil : SafeList<T, Empty>,
            Cons(T, SafeListRef<T, E>) : SafeList<T, NonEmpty>,
        }
    ";
    let g = type_enum(src).unwrap();
    assert_eq!(g.variants.len(), 2);

    let nil = Handle { tag: 0u64, payload: ListPayload::Nil };
    let two = Handle { tag: 1u64, payload: ListPayload::Cons(2, Box::new(nil)) };
    let list = Handle { tag: 1u64, payload: ListPayload::Cons(1, Box::new(two)) };

    let head = safe_head(list);
    assert_eq!(head, 1);
}

#[derive(Debug)]
enum NatPayload {
    Zero,
    Succ(Box<Handle<NatPayload>>),
}

fn to_u32(n: Handle<NatPayload>) -> u32 {
    let probes = vec![0u64, 1];
    let (_, payload) = dispatch_move(n, &probes).expect("No matching type found");
    match payload {
        NatPayload::Zero => 0,
        NatPayload::Succ(inner) => 1 + to_u32(*inner),
    }
}

fn succ(n: Handle<NatPayload>) -> Handle<NatPayload> {
    Handle { tag: 1u64, payload: NatPayload::Succ(Box::new(n)) }
}

#[test]
fn test_field_generics() {
    let src = "
        enum Nat {
            Zero,
            Succ<N: Nat>(N) : Nat,
        }

        fn to_u32(&self) -> u32 {
            Zero => 0,
            Succ<N: Nat>(n) => 1 + n.to_u32(),
        }
    ";
    let g = type_enum(src).unwrap();
    assert_eq!(g.variants.len(), 2);
    assert_eq!(g.variants[1].record.name, "Succ");
    // The Succ record is parameterized over its local parameter N.
    assert_eq!(g.variants[1].record.generics.params.len(), 1);
    assert_eq!(g.variants[1].record.generics.params[0].name, "N");
    assert_eq!(g.variants[0].impl_block.methods.len(), 1);
    assert_eq!(g.variants[1].impl_block.methods.len(), 1);

    let zero = Handle { tag: 0u64, payload: NatPayload::Zero };
    let three = succ(succ(succ(zero)));
    assert_eq!(to_u32(three), 3);
}

#[derive(Debug)]
enum SmallArith {
    Num(i32),
    Bool(bool),
    Add(Box<Handle<SmallArith>>, Box<Handle<SmallArith>>),
    Or(Box<Handle<SmallArith>>, Box<Handle<SmallArith>>),
}

fn small_eval_num(e: Handle<SmallArith>) -> i32 {
    let probes = vec![0u64, 1, 2, 3];
    let (_, payload) = dispatch_move(e, &probes).expect("No matching type found");
    match payload {
        SmallArith::Num(i) => i,
        SmallArith::Add(a, b) => small_eval_num(*a) + small_eval_num(*b),
        _ => panic!("ill-typed arithmetic"),
    }
}

fn small_eval_bool(e: Handle<SmallArith>) -> bool {
    let probes = vec![0u64, 1, 2, 3];
    let (_, payload) = dispatch_move(e, &probes).expect("No matching type found");
    match payload {
        SmallArith::Bool(b) => b,
        SmallArith::Or(a, b) => small_eval_bool(*a) || small_eval_bool(*b),
        _ => panic!("ill-typed arithmetic"),
    }
}

fn snum(i: i32) -> Handle<SmallArith> {
    Handle { tag: 0u64, payload: SmallArith::Num(i) }
}

fn sbool(b: bool) -> Handle<SmallArith> {
    Handle { tag: 1u64, payload: SmallArith::Bool(b) }
}

fn sadd(a: Handle<SmallArith>, b: Handle<SmallArith>) -> Handle<SmallArith> {
    Handle { tag: 2u64, payload: SmallArith::Add(Box::new(a), Box::new(b)) }
}

fn sor(a: Handle<SmallArith>, b: Handle<SmallArith>) -> Handle<SmallArith> {
    Handle { tag: 3u64, payload: SmallArith::Or(Box::new(a), Box::new(b)) }
}

#[test]
fn test_field_generics_arith() {
    let src = "
        enum Arith<T> {
            Num(i32) : Arith<i32>,
            Bool(bool) : Arith<bool>,
            Add<A: Arith<i32>, B: Arith<i32>>(A, B) : Arith<i32>,
            Or<A: Arith<bool>, B: Arith<bool>>(A, B) : Arith<bool>,
        }

        fn eval(&self) -> T {
            Num(i) => *i,
            Bool(b) => *b,
            Add<A, B>(a, b) => a.eval() + b.eval(),
            Or<A, B>(a, b) => a.eval() || b.eval(),
        }
    ";
    let g = type_enum(src).unwrap();
    assert_eq!(g.variants.len(), 4);
    assert_eq!(g.variants[2].record.name, "Add");
    // Add's record carries its two local parameters.
    assert_eq!(g.variants[2].record.generics.params.len(), 2);

    let expr = sadd(snum(10), sadd(snum(20), snum(5)));
    let expr2 = sor(sbool(false), sor(sbool(true), sbool(false)));

    assert_eq!(small_eval_num(expr), 35);
    assert_eq!(small_eval_bool(expr2), true);
}
