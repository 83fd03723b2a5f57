use python_terms::arrays::{array, array_select, array_store, fill_array, mut_array_store, slice};
use python_terms::bits::{bit_array_le, field_to_bits, uint_from_bits, uint_to_bits, uint_to_field};
use python_terms::classes::{field_select, field_store};
use python_terms::field::{Cfg, FieldT};
use python_terms::integer::Integer;
use python_terms::ir::{
    default_field_sort, leaf_term, BoolNaryOp, BvBinOp, BvBinPred, BvNaryOp, BvUnOp, Op, PfNaryOp,
    PfUnOp, Sort, Term, Value,
};
use python_terms::ops::{
    add, and, bitand, bitor, bitxor, cond, const_val, div, eq, field_lit, mul, neg, neq, not, or,
    pow, py_bool_lit, rem, shl, shr, sub, uge, ugt, uint_lit, ule, ult,
};
use python_terms::pyterm::PyTerm;
use python_terms::python::Python;
use python_terms::ty::Ty;

const P: i128 = 101;

#[derive(Debug, Clone, PartialEq)]
enum V {
    B(bool),
    F(i128),
    U(i128, usize),
    T(Vec<V>),
    A(Vec<V>),
}

fn cfg() -> Cfg {
    Cfg::new(FieldT::new(Integer::from_u64(101)))
}

fn num(v: u64) -> Integer {
    Integer::from_u64(v)
}

fn small(i: &Integer) -> i128 {
    let limbs = i.limbs();
    if limbs.is_empty() {
        0
    } else {
        limbs[0] as i128
    }
}

fn constant(v: &Value) -> V {
    match v {
        Value::Bool(b) => V::B(*b),
        Value::Field(f) => V::F(small(&f.i())),
        Value::BitVector(b) => V::U(small(b.uint()), b.width()),
        Value::Tuple(vs) => V::T(vs.iter().map(constant).collect()),
        Value::Array(a) => V::A(a.elems.iter().map(constant).collect()),
        Value::Foreign(_) => panic!("no value"),
    }
}

fn pair(vs: &[V]) -> (i128, i128, usize) {
    match (&vs[0], &vs[1]) {
        (V::U(x, w), V::U(y, z)) if w == z => (*x, *y, *w),
        _ => panic!("not two bit-vectors"),
    }
}

fn index(v: &V) -> usize {
    match v {
        V::F(i) => *i as usize,
        _ => panic!("not an index"),
    }
}

fn items(v: &V) -> Vec<V> {
    match v {
        V::T(xs) | V::A(xs) => xs.clone(),
        _ => panic!("no parts"),
    }
}

fn truth(v: &V) -> bool {
    match v {
        V::B(b) => *b,
        _ => panic!("not a Boolean"),
    }
}

fn recip(x: i128) -> i128 {
    (1..P).find(|r| (x * r) % P == 1).unwrap()
}

fn eval(t: &Term, env: &[(&str, V)]) -> V {
    let vs: Vec<V> = t.cs().iter().map(|c| eval(c, env)).collect();
    match t.op() {
        Op::Const(v) => constant(v),
        Op::Var(n, _) => env.iter().find(|(m, _)| m == n).unwrap().1.clone(),
        Op::Ite => vs[if truth(&vs[0]) { 1 } else { 2 }].clone(),
        Op::Eq => V::B(vs[0] == vs[1]),
        Op::Not => V::B(!truth(&vs[0])),
        Op::BoolNaryOp(BoolNaryOp::And) => V::B(vs.iter().all(truth)),
        Op::BoolNaryOp(BoolNaryOp::Or) => V::B(vs.iter().any(truth)),
        Op::BvNaryOp(o) => {
            let (x, y, w) = pair(&vs);
            let r = match o {
                BvNaryOp::Add => x + y,
                BvNaryOp::Mul => x * y,
                BvNaryOp::And => x & y,
                BvNaryOp::Or => x | y,
                BvNaryOp::Xor => x ^ y,
            };
            V::U(r.rem_euclid(1 << w), w)
        }
        Op::BvBinOp(o) => {
            let (x, y, w) = pair(&vs);
            let r = match o {
                BvBinOp::Sub => x - y,
                BvBinOp::Udiv => x / y,
                BvBinOp::Urem => x % y,
                BvBinOp::Shl => x << y,
                BvBinOp::Lshr => x >> y,
            };
            V::U(r.rem_euclid(1 << w), w)
        }
        Op::BvUnOp(o) => match (o, &vs[0]) {
            (BvUnOp::Neg, V::U(x, w)) => V::U((-x).rem_euclid(1 << w), *w),
            (BvUnOp::Not, V::U(x, w)) => V::U((1 << w) - 1 - x, *w),
            _ => panic!("not a bit-vector"),
        },
        Op::BvBinPred(o) => {
            let (x, y, _) = pair(&vs);
            V::B(match o {
                BvBinPred::Ult => x < y,
                BvBinPred::Ule => x <= y,
                BvBinPred::Ugt => x > y,
                BvBinPred::Uge => x >= y,
            })
        }
        Op::BvBit(i) => match &vs[0] {
            V::U(x, _) => V::B((x >> i) & 1 == 1),
            _ => panic!("not a bit-vector"),
        },
        Op::BvConcat => vs.iter().fold(V::U(0, 0), |high, low| match (high, low) {
            (V::U(x, w), V::U(y, z)) => V::U((x << z) + y, w + z),
            _ => panic!("not bit-vectors"),
        }),
        Op::BoolToBv => V::U(truth(&vs[0]) as i128, 1),
        Op::PfNaryOp(o) => match (&vs[0], &vs[1]) {
            (V::F(x), V::F(y)) => V::F(match o {
                PfNaryOp::Add => (x + y) % P,
                PfNaryOp::Mul => (x * y) % P,
            }),
            _ => panic!("not field elements"),
        },
        Op::PfUnOp(o) => match (o, &vs[0]) {
            (PfUnOp::Neg, V::F(x)) => V::F((-x).rem_euclid(P)),
            (PfUnOp::Recip, V::F(x)) => V::F(recip(*x)),
            _ => panic!("not a field element"),
        },
        Op::PfToBv(w) => match &vs[0] {
            V::F(x) if *x < (1 << w) => V::U(*x, *w),
            _ => panic!("does not fit"),
        },
        Op::UbvToPf(_) => match &vs[0] {
            V::U(x, _) => V::F(x % P),
            _ => panic!("not a bit-vector"),
        },
        Op::Select => items(&vs[0])[index(&vs[1])].clone(),
        Op::Store => {
            let mut xs = items(&vs[0]);
            xs[index(&vs[1])] = vs[2].clone();
            V::A(xs)
        }
        Op::CStore => {
            let mut xs = items(&vs[0]);
            if truth(&vs[3]) {
                xs[index(&vs[1])] = vs[2].clone();
            }
            V::A(xs)
        }
        Op::Fill(_, n) => V::A(vec![vs[0].clone(); *n]),
        Op::Array(_, _) => V::A(vs),
        Op::Tuple => V::T(vs),
        Op::Field(i) => items(&vs[0])[*i].clone(),
        Op::Update(i) => {
            let mut xs = items(&vs[0]);
            xs[*i] = vs[1].clone();
            V::T(xs)
        }
        Op::Foreign(_, _) => panic!("no value"),
    }
}

fn sort_of(t: &Term) -> Sort {
    let ss: Vec<Sort> = t.cs().iter().map(sort_of).collect();
    let value_sort = |s: &Sort| match s {
        Sort::Array(k, v, n) => ((**k).clone(), (**v).clone(), *n),
        _ => panic!("not an array"),
    };
    let parts = |s: &Sort| match s {
        Sort::Tuple(ss) => ss.clone(),
        _ => panic!("not a tuple"),
    };
    match t.op() {
        Op::Const(v) => constant_sort(v),
        Op::Var(_, s) => s.clone(),
        Op::Ite => {
            assert!(ss[0] == Sort::Bool && ss[1] == ss[2]);
            ss[1].clone()
        }
        Op::Eq => {
            assert_eq!(ss[0], ss[1]);
            Sort::Bool
        }
        Op::Not | Op::BoolNaryOp(_) => {
            assert!(ss.iter().all(|s| *s == Sort::Bool));
            Sort::Bool
        }
        Op::BvNaryOp(_) | Op::BvBinOp(_) | Op::BvUnOp(_) => {
            assert!(matches!(ss[0], Sort::BitVector(_)) && ss.iter().all(|s| *s == ss[0]));
            ss[0].clone()
        }
        Op::BvBinPred(_) => {
            assert!(matches!(ss[0], Sort::BitVector(_)) && ss[0] == ss[1]);
            Sort::Bool
        }
        Op::BvBit(i) => {
            assert!(matches!(ss[0], Sort::BitVector(w) if *i < w));
            Sort::Bool
        }
        Op::BvConcat => Sort::BitVector(
            ss.iter()
                .map(|s| match s {
                    Sort::BitVector(w) => *w,
                    _ => panic!("not a bit-vector"),
                })
                .sum(),
        ),
        Op::BoolToBv => {
            assert_eq!(ss[0], Sort::Bool);
            Sort::BitVector(1)
        }
        Op::PfNaryOp(_) | Op::PfUnOp(_) => {
            assert!(matches!(ss[0], Sort::Field(_)) && ss.iter().all(|s| *s == ss[0]));
            ss[0].clone()
        }
        Op::PfToBv(w) => {
            assert!(matches!(ss[0], Sort::Field(_)));
            Sort::BitVector(*w)
        }
        Op::UbvToPf(f) => {
            assert!(matches!(ss[0], Sort::BitVector(_)));
            Sort::Field(f.clone())
        }
        Op::Select => {
            let (k, v, _) = value_sort(&ss[0]);
            assert_eq!(k, ss[1]);
            v
        }
        Op::Store | Op::CStore => {
            let (k, v, _) = value_sort(&ss[0]);
            assert!(k == ss[1] && v == ss[2]);
            ss[0].clone()
        }
        Op::Fill(k, n) => Sort::Array(Box::new(k.clone()), Box::new(ss[0].clone()), *n),
        Op::Array(k, v) => {
            assert!(ss.iter().all(|s| s == v));
            Sort::Array(Box::new(k.clone()), Box::new(v.clone()), ss.len())
        }
        Op::Tuple => Sort::Tuple(ss),
        Op::Field(i) => parts(&ss[0])[*i].clone(),
        Op::Update(i) => {
            assert_eq!(parts(&ss[0])[*i], ss[1]);
            ss[0].clone()
        }
        Op::Foreign(_, s) => s.clone(),
    }
}

fn constant_sort(v: &Value) -> Sort {
    match v {
        Value::Bool(_) => Sort::Bool,
        Value::Field(f) => Sort::Field(f.field().clone()),
        Value::BitVector(b) => Sort::BitVector(b.width()),
        Value::Tuple(vs) => Sort::Tuple(vs.iter().map(constant_sort).collect()),
        Value::Array(a) => {
            assert!(a.elems.iter().all(|e| constant_sort(e) == a.val_sort));
            Sort::Array(
                Box::new(a.key_sort.clone()),
                Box::new(a.val_sort.clone()),
                a.elems.len(),
            )
        }
        Value::Foreign(_) => panic!("no sort"),
    }
}

/// The value of a term whose sort is that of its type.
fn value(t: &PyTerm, env: &[(&str, V)]) -> V {
    assert_eq!(sort_of(&t.term), t.ty.sort(&cfg()));
    eval(&t.term, env)
}

fn var(name: &str, ty: Ty) -> PyTerm {
    let sort = ty.sort(&cfg());
    PyTerm::new(ty, leaf_term(Op::Var(name.to_string(), sort)))
}

fn uints() -> (PyTerm, PyTerm, Vec<(&'static str, V)>) {
    let env = vec![("a", V::U(200, 8)), ("b", V::U(77, 8))];
    (var("a", Ty::Uint(8)), var("b", Ty::Uint(8)), env)
}

fn fields() -> (PyTerm, PyTerm, Vec<(&'static str, V)>) {
    let env = vec![("a", V::F(30)), ("b", V::F(80))];
    (var("a", Ty::Field), var("b", Ty::Field), env)
}

#[test]
fn arithmetic_of_unsigned_integers_wraps() {
    let (a, b, env) = uints();
    let c = cfg();
    assert_eq!(value(&add(a.clone(), b.clone()).unwrap(), &env), V::U(21, 8));
    assert_eq!(value(&sub(b.clone(), a.clone()).unwrap(), &env), V::U(133, 8));
    assert_eq!(value(&mul(a.clone(), b.clone()).unwrap(), &env), V::U(40, 8));
    assert_eq!(value(&div(a.clone(), b.clone()).unwrap(), &env), V::U(2, 8));
    assert_eq!(value(&rem(a.clone(), b, &c).unwrap(), &env), V::U(46, 8));
    assert_eq!(value(&neg(a.clone()).unwrap(), &env), V::U(56, 8));
    assert_eq!(value(&not(a).unwrap(), &env), V::U(55, 8));
}

#[test]
fn arithmetic_of_field_elements_is_modular() {
    let (a, b, env) = fields();
    let c = cfg();
    assert_eq!(value(&add(a.clone(), b.clone()).unwrap(), &env), V::F(9));
    assert_eq!(value(&sub(a.clone(), b.clone()).unwrap(), &env), V::F(51));
    assert_eq!(value(&mul(a.clone(), b.clone()).unwrap(), &env), V::F(77));
    let q = div(a.clone(), b.clone()).unwrap();
    assert_eq!(value(&mul(q, b.clone()).unwrap(), &env), V::F(30));
    assert_eq!(value(&rem(b, a.clone(), &c).unwrap(), &env), V::F(20));
    assert_eq!(value(&neg(a).unwrap(), &env), V::F(71));
}

#[test]
fn bitwise_operators_combine_bits() {
    let (a, b, env) = uints();
    assert_eq!(value(&bitand(a.clone(), b.clone()).unwrap(), &env), V::U(200 & 77, 8));
    assert_eq!(value(&bitor(a.clone(), b.clone()).unwrap(), &env), V::U(200 | 77, 8));
    assert_eq!(value(&bitxor(a, b).unwrap(), &env), V::U(200 ^ 77, 8));
}

#[test]
fn logical_operators_combine_truths() {
    for x in [false, true] {
        for y in [false, true] {
            let env = vec![("a", V::B(x)), ("b", V::B(y))];
            let (a, b) = (var("a", Ty::Bool), var("b", Ty::Bool));
            assert_eq!(value(&and(a.clone(), b.clone()).unwrap(), &env), V::B(x && y));
            assert_eq!(value(&or(a.clone(), b.clone()).unwrap(), &env), V::B(x || y));
            assert_eq!(value(&eq(a.clone(), b.clone()).unwrap(), &env), V::B(x == y));
            assert_eq!(value(&neq(a.clone(), b).unwrap(), &env), V::B(x != y));
            assert_eq!(value(&not(a).unwrap(), &env), V::B(!x));
        }
    }
}

#[test]
fn comparisons_compare_numbers() {
    let c = cfg();
    for (a, b, env, less) in [
        (uints().0, uints().1, uints().2, false),
        (fields().0, fields().1, fields().2, true),
    ] {
        assert_eq!(value(&ult(a.clone(), b.clone(), &c).unwrap(), &env), V::B(less));
        assert_eq!(value(&ule(a.clone(), b.clone(), &c).unwrap(), &env), V::B(less));
        assert_eq!(value(&ugt(a.clone(), b.clone(), &c).unwrap(), &env), V::B(!less));
        assert_eq!(value(&uge(a.clone(), b, &c).unwrap(), &env), V::B(!less));
        assert_eq!(value(&ule(a.clone(), a.clone(), &c).unwrap(), &env), V::B(true));
        assert_eq!(value(&ult(a.clone(), a, &c).unwrap(), &env), V::B(false));
    }
}

#[test]
fn powers_are_products() {
    for x in [0i128, 1, 2, 30, 100] {
        let env = vec![("a", V::F(x))];
        let mut want = 1;
        for n in 0..20u64 {
            let b = uint_lit(num(n), 32);
            let folded = b.term.clone();
            let t = pow(var("a", Ty::Field), b, &folded, &cfg()).unwrap();
            assert_eq!(value(&t, &env), V::F(want));
            want = (want * x) % P;
        }
    }
}

#[test]
fn shifts_move_bits() {
    let (a, _, env) = uints();
    let by = uint_lit(num(2), 32);
    let folded = by.term.clone();
    assert_eq!(value(&shl(a.clone(), by.clone(), &folded).unwrap(), &env), V::U(32, 8));
    assert_eq!(value(&shr(a, by, &folded).unwrap(), &env), V::U(50, 8));
}

#[test]
fn choices_pick_a_case() {
    let (a, b, mut env) = uints();
    env.push(("c", V::B(true)));
    let t = cond(var("c", Ty::Bool), a, b).unwrap();
    assert_eq!(value(&t, &env), V::U(200, 8));
    env[2] = ("c", V::B(false));
    assert_eq!(value(&t, &env), V::U(77, 8));
}

#[test]
fn constants_keep_their_value() {
    let two = uint_lit(num(2), 8);
    let sum = add(two.clone(), two).unwrap();
    let folded = uint_lit(num(4), 8).term;
    let c = const_val(sum.clone(), &folded).unwrap();
    assert_eq!(value(&c, &[]), value(&sum, &[]));
    assert_eq!(value(&field_lit(Integer::from_i64(-3), &cfg()), &[]), V::F(98));
    assert_eq!(value(&py_bool_lit(true), &[]), V::B(true));
}

#[test]
fn integers_become_field_elements() {
    let (a, _, env) = uints();
    assert_eq!(value(&uint_to_field(a, &cfg()).unwrap(), &env), V::F(99));
}

fn three() -> (PyTerm, Vec<(&'static str, V)>) {
    let ty = Ty::Array(3, Box::new(Ty::Uint(8)));
    let xs = vec![V::U(1, 8), V::U(2, 8), V::U(3, 8)];
    let env = vec![("xs", V::A(xs)), ("i", V::U(2, 8)), ("v", V::U(9, 8)), ("j", V::F(0))];
    (var("xs", ty), env)
}

#[test]
fn arrays_give_their_elements() {
    let c = cfg();
    let (a, env) = three();
    let ts = a.clone().unwrap_array(&c).unwrap();
    let xs: Vec<V> = ts.iter().map(|t| value(t, &env)).collect();
    assert_eq!(V::A(xs), value(&a, &env));
    let again = array(ts, Sort::BitVector(8), &c).unwrap();
    assert_eq!(value(&again, &env), value(&a, &env));
    let s = slice(a.clone(), Some(1), Some(3), Sort::BitVector(8), &c).unwrap();
    assert_eq!(value(&s, &env), V::A(vec![V::U(2, 8), V::U(3, 8)]));
    let f = fill_array(var("v", Ty::Uint(8)), 2, &c).unwrap();
    assert_eq!(value(&f, &env), V::A(vec![V::U(9, 8), V::U(9, 8)]));
    assert_eq!(value(&array_select(a.clone(), var("i", Ty::Uint(8)), &c).unwrap(), &env), V::U(3, 8));
    assert_eq!(value(&array_select(a, var("j", Ty::Field), &c).unwrap(), &env), V::U(1, 8));
}

#[test]
fn what_is_written_is_read() {
    let c = cfg();
    let (a, env) = three();
    let (i, j, v) = (var("i", Ty::Uint(8)), var("j", Ty::Field), var("v", Ty::Uint(8)));
    let b = array_store(a.clone(), i.clone(), v, &c).unwrap();
    assert_eq!(value(&array_select(b.clone(), i, &c).unwrap(), &env), V::U(9, 8));
    assert_eq!(
        value(&array_select(b, j.clone(), &c).unwrap(), &env),
        value(&array_select(a, j, &c).unwrap(), &env)
    );
}

#[test]
fn conditional_writes_happen_where_the_condition_holds() {
    let c = cfg();
    let m = var("m", Ty::MutArray(2));
    let (j, v) = (var("j", Ty::Field), var("v", Ty::Uint(8)));
    let k = var("c", Ty::Bool).term;
    let r = mut_array_store(m, j, v, k, &c).unwrap();
    let mut env = vec![
        ("m", V::A(vec![V::F(5), V::F(6)])),
        ("j", V::F(1)),
        ("v", V::U(200, 8)),
        ("c", V::B(true)),
    ];
    assert_eq!(value(&r, &env), V::A(vec![V::F(5), V::F(99)]));
    env[3] = ("c", V::B(false));
    assert_eq!(value(&r, &env), V::A(vec![V::F(5), V::F(6)]));
}

#[test]
fn bits_give_the_integer_back() {
    let c = cfg();
    for w in [8usize, 16, 32, 64] {
        let u = var("u", Ty::Uint(w));
        let env = vec![("u", V::U(0xa5, w))];
        let bits = uint_to_bits(u.clone(), &c).unwrap();
        let want: Vec<V> = (0..w).rev().map(|i| V::B((0xa5u64 >> i) & 1 == 1)).collect();
        assert_eq!(value(&bits, &env), V::A(want));
        let back = uint_from_bits(bits.clone(), &c).unwrap();
        assert_eq!(value(&back, &env), V::U(0xa5, w));
        assert_eq!(value(&uint_to_bits(back, &c).unwrap(), &env), value(&bits, &env));
    }
}

#[test]
fn bits_of_a_field_element() {
    let t = field_to_bits(var("f", Ty::Field), 4, &cfg()).unwrap();
    let env = vec![("f", V::F(6))];
    let want = vec![V::B(false), V::B(true), V::B(true), V::B(false)];
    assert_eq!(value(&t, &env), V::A(want));
}

#[test]
fn bits_are_compared_as_numbers() {
    let ty = Ty::Array(3, Box::new(Ty::Bool));
    let bits = |n: u32| V::A((0..3).rev().map(|i| V::B((n >> i) & 1 == 1)).collect());
    let t = bit_array_le(var("a", ty.clone()), var("b", ty), 3, &cfg()).unwrap();
    for x in 0..8 {
        for y in 0..8 {
            let env = vec![("a", bits(x)), ("b", bits(y))];
            assert_eq!(value(&t, &env), V::B(x <= y));
        }
    }
}

#[test]
fn fields_are_read_as_they_were_given() {
    let env = vec![("a", V::F(7)), ("b", V::B(true)), ("v", V::F(8))];
    let fs = vec![
        ("y".to_string(), var("b", Ty::Bool)),
        ("x".to_string(), var("a", Ty::Field)),
    ];
    let p = PyTerm::new_class("P".to_string(), fs);
    assert_eq!(value(&p, &env), V::T(vec![V::F(7), V::B(true)]));
    assert_eq!(value(&field_select(&p, "x").unwrap(), &env), V::F(7));
    assert_eq!(value(&field_select(&p, "y").unwrap(), &env), V::B(true));
    let q = field_store(p, "x", var("v", Ty::Field)).unwrap();
    assert_eq!(value(&field_select(&q, "x").unwrap(), &env), V::F(8));
    assert_eq!(value(&field_select(&q, "y").unwrap(), &env), V::B(true));
}

#[test]
fn scalars_of_an_input_are_its_variables() {
    let c = cfg();
    let py = Python::new();
    let point = Ty::new_class(
        "P".to_string(),
        vec![("y".to_string(), Ty::Bool), ("x".to_string(), Ty::Field)],
    );
    let ty = Ty::new_class(
        "Q".to_string(),
        vec![
            ("ps".to_string(), Ty::Array(2, Box::new(point))),
            ("m".to_string(), Ty::MutArray(2)),
        ],
    );
    let is = py.declare_input(&ty, "in".to_string(), None, None, &c);
    let vars: Vec<Term> = is
        .iter()
        .map(|i| leaf_term(Op::Var(i.name.clone(), i.sort.clone())))
        .collect();
    let xs = vec![V::F(1), V::F(2), V::F(3), V::B(true), V::F(4), V::B(false)];
    let env: Vec<(&str, V)> = is.iter().map(|i| i.name.as_str()).zip(xs.clone()).collect();
    let t = py.assemble_input(&ty, &vars, &c);
    value(&t, &env);
    let got: Vec<V> = t.terms(&t.ty.sort(&c), &c).iter().map(|s| eval(s, &env)).collect();
    assert_eq!(got, xs);
    let sorts: Vec<Sort> = t.terms(&t.ty.sort(&c), &c).iter().map(sort_of).collect();
    assert_eq!(sorts, is.iter().map(|i| i.sort.clone()).collect::<Vec<Sort>>());
}

#[test]
fn defaults_have_the_sort_of_their_type() {
    let c = cfg();
    let point = Ty::new_class(
        "P".to_string(),
        vec![("y".to_string(), Ty::Uint(8)), ("x".to_string(), Ty::Field)],
    );
    let t = Ty::Array(2, Box::new(point)).default(&c);
    let one = V::T(vec![V::F(0), V::U(0, 8)]);
    assert_eq!(value(&t, &[]), V::A(vec![one.clone(), one]));
    assert_eq!(value(&Ty::MutArray(1).default(&c), &[]), V::A(vec![V::F(0)]));
    assert_eq!(sort_of(&Ty::Field.default(&c).term), default_field_sort(&c));
}
