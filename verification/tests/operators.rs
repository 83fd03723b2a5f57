use python_terms::field::{default_field, BitVector, Cfg, FieldT};
use python_terms::integer::Integer;
use python_terms::ir::{
    bv_lit, leaf_term, pf_index, pf_lit_ir, term1, term2, term3, BoolNaryOp, BvBinOp, BvBinPred,
    BvNaryOp, BvUnOp, Op, PfNaryOp, PfUnOp, Sort, Term, Value,
};
use python_terms::ops::{
    add, and, bitand, bitor, bitxor, bool, cond, const_bool, const_int, const_val, const_value, div,
    eq, field_lit, ite, mul, neg, neq, not, or, pow, py_bool_lit, rem, shl, shr, sub, uge, ugt,
    uint_lit, ule, ult,
};
use python_terms::pyterm::PyTerm;
use python_terms::ty::Ty;

fn cfg() -> Cfg {
    Cfg::new(FieldT::new(Integer::from_u64(101)))
}

fn var(name: &str, sort: Sort) -> Term {
    leaf_term(Op::Var(name.to_string(), sort))
}

fn fld(name: &str) -> PyTerm {
    PyTerm::new(Ty::Field, var(name, Sort::Field(default_field(&cfg()))))
}

fn uint(name: &str, w: usize) -> PyTerm {
    PyTerm::new(Ty::Uint(w), var(name, Sort::BitVector(w)))
}

fn boolean(name: &str) -> PyTerm {
    PyTerm::new(Ty::Bool, var(name, Sort::Bool))
}

fn num(v: u64) -> Integer {
    Integer::from_u64(v)
}

fn want(r: Result<PyTerm, python_terms::error::Error>, ty: Ty, op: Op, cs: Vec<Term>) {
    let t = r.unwrap();
    assert!(t.ty == ty);
    assert_eq!(t.term, python_terms::ir::term(op, cs));
}

#[test]
fn arithmetic_on_unsigned_integers() {
    let (a, b) = (uint("a", 8), uint("b", 8));
    let cs = vec![a.term.clone(), b.term.clone()];
    want(add(a.clone(), b.clone()), Ty::Uint(8), Op::BvNaryOp(BvNaryOp::Add), cs.clone());
    want(sub(a.clone(), b.clone()), Ty::Uint(8), Op::BvBinOp(BvBinOp::Sub), cs.clone());
    want(mul(a.clone(), b.clone()), Ty::Uint(8), Op::BvNaryOp(BvNaryOp::Mul), cs.clone());
    want(div(a.clone(), b.clone()), Ty::Uint(8), Op::BvBinOp(BvBinOp::Udiv), cs.clone());
    want(rem(a, b, &cfg()), Ty::Uint(8), Op::BvBinOp(BvBinOp::Urem), cs);
}

#[test]
fn arithmetic_on_field_elements() {
    let (a, b) = (fld("a"), fld("b"));
    let (x, y) = (a.term.clone(), b.term.clone());
    want(add(a.clone(), b.clone()), Ty::Field, Op::PfNaryOp(PfNaryOp::Add), vec![x.clone(), y.clone()]);
    want(
        sub(a.clone(), b.clone()),
        Ty::Field,
        Op::PfNaryOp(PfNaryOp::Add),
        vec![x.clone(), term1(Op::PfUnOp(PfUnOp::Neg), y.clone())],
    );
    want(mul(a.clone(), b.clone()), Ty::Field, Op::PfNaryOp(PfNaryOp::Mul), vec![x.clone(), y.clone()]);
    want(
        div(a, b),
        Ty::Field,
        Op::PfNaryOp(PfNaryOp::Mul),
        vec![x, term1(Op::PfUnOp(PfUnOp::Recip), y)],
    );
}

#[test]
fn remainder_of_field_elements_goes_through_their_bits() {
    let (a, b) = (fld("a"), fld("b"));
    // 101 has seven bits
    let x = term1(Op::PfToBv(7), a.term.clone());
    let y = term1(Op::PfToBv(7), b.term.clone());
    want(
        rem(a, b, &cfg()),
        Ty::Field,
        Op::UbvToPf(default_field(&cfg())),
        vec![term2(Op::BvBinOp(BvBinOp::Urem), x, y)],
    );
}

#[test]
fn bitwise_operators() {
    let (a, b) = (uint("a", 16), uint("b", 16));
    let cs = vec![a.term.clone(), b.term.clone()];
    want(bitand(a.clone(), b.clone()), Ty::Uint(16), Op::BvNaryOp(BvNaryOp::And), cs.clone());
    want(bitor(a.clone(), b.clone()), Ty::Uint(16), Op::BvNaryOp(BvNaryOp::Or), cs.clone());
    want(bitxor(a, b), Ty::Uint(16), Op::BvNaryOp(BvNaryOp::Xor), cs);
}

#[test]
fn logical_operators() {
    let (a, b) = (boolean("a"), boolean("b"));
    let cs = vec![a.term.clone(), b.term.clone()];
    want(or(a.clone(), b.clone()), Ty::Bool, Op::BoolNaryOp(BoolNaryOp::Or), cs.clone());
    want(and(a.clone(), b), Ty::Bool, Op::BoolNaryOp(BoolNaryOp::And), cs);
    want(not(a.clone()), Ty::Bool, Op::Not, vec![a.term]);
}

#[test]
fn comparisons() {
    let c = cfg();
    let (a, b) = (uint("a", 8), uint("b", 8));
    let cs = vec![a.term.clone(), b.term.clone()];
    want(ult(a.clone(), b.clone(), &c), Ty::Bool, Op::BvBinPred(BvBinPred::Ult), cs.clone());
    want(ule(a.clone(), b.clone(), &c), Ty::Bool, Op::BvBinPred(BvBinPred::Ule), cs.clone());
    want(ugt(a.clone(), b.clone(), &c), Ty::Bool, Op::BvBinPred(BvBinPred::Ugt), cs.clone());
    want(uge(a, b, &c), Ty::Bool, Op::BvBinPred(BvBinPred::Uge), cs);
    let (a, b) = (fld("a"), fld("b"));
    let bits = vec![term1(Op::PfToBv(7), a.term.clone()), term1(Op::PfToBv(7), b.term.clone())];
    want(ult(a.clone(), b.clone(), &c), Ty::Bool, Op::BvBinPred(BvBinPred::Ult), bits.clone());
    want(ule(a.clone(), b.clone(), &c), Ty::Bool, Op::BvBinPred(BvBinPred::Ule), bits.clone());
    want(ugt(a.clone(), b.clone(), &c), Ty::Bool, Op::BvBinPred(BvBinPred::Ugt), bits.clone());
    want(uge(a, b, &c), Ty::Bool, Op::BvBinPred(BvBinPred::Uge), bits);
}

#[test]
fn equality_of_any_type() {
    let (a, b) = (boolean("a"), boolean("b"));
    let cs = vec![a.term.clone(), b.term.clone()];
    want(eq(a.clone(), b.clone()), Ty::Bool, Op::Eq, cs.clone());
    want(neq(a.clone(), b.clone()), Ty::Bool, Op::Not, vec![python_terms::ir::term(Op::Eq, cs)]);
    let same = not(eq(a.clone(), b.clone()).unwrap()).unwrap();
    assert_eq!(neq(a, b).unwrap().term, same.term);
}

#[test]
fn negatives_and_opposites() {
    let a = uint("a", 8);
    want(neg(a.clone()), Ty::Uint(8), Op::BvUnOp(BvUnOp::Neg), vec![a.term.clone()]);
    want(not(a.clone()), Ty::Uint(8), Op::BvUnOp(BvUnOp::Not), vec![a.term]);
    let f = fld("f");
    want(neg(f.clone()), Ty::Field, Op::PfUnOp(PfUnOp::Neg), vec![f.term]);
}

fn times(a: &Term, b: &Term) -> Term {
    term2(Op::PfNaryOp(PfNaryOp::Mul), a.clone(), b.clone())
}

fn raised(n: u64) -> Term {
    let b = uint_lit(num(n), 32);
    let folded = b.term.clone();
    let t = pow(fld("a"), b, &folded, &cfg()).unwrap();
    assert!(t.ty == Ty::Field);
    t.term
}

#[test]
fn powers_square_and_multiply() {
    let a = fld("a").term;
    assert_eq!(raised(0), pf_lit_ir(&num(1), &cfg()));
    assert_eq!(raised(1), a);
    let a2 = times(&a, &a);
    assert_eq!(raised(2), a2);
    assert_eq!(raised(3), times(&a2, &a));
    let a4 = times(&a2, &a2);
    assert_eq!(raised(4), a4);
    let a5 = times(&a4, &a);
    assert_eq!(raised(5), a5);
    assert_eq!(raised(11), times(&times(&a5, &a5), &a));
}

#[test]
fn shifts_by_constants() {
    let a = uint("a", 8);
    let by = uint_lit(num(3), 32);
    let folded = by.term.clone();
    let three = bv_lit(num(3), 8);
    want(
        shl(a.clone(), by.clone(), &folded),
        Ty::Uint(8),
        Op::BvBinOp(BvBinOp::Shl),
        vec![a.term.clone(), three.clone()],
    );
    want(
        shr(a.clone(), by, &folded),
        Ty::Uint(8),
        Op::BvBinOp(BvBinOp::Lshr),
        vec![a.term.clone(), three.clone()],
    );
    let by = field_lit(num(3), &cfg());
    let folded = by.term.clone();
    want(shl(a.clone(), by, &folded), Ty::Uint(8), Op::BvBinOp(BvBinOp::Shl), vec![a.term, three]);
}

#[test]
fn choices() {
    let (c, a, b) = (boolean("c"), uint("a", 8), uint("b", 8));
    let t = term3(Op::Ite, c.term.clone(), a.term.clone(), b.term.clone());
    let r = cond(c.clone(), a.clone(), b.clone()).unwrap();
    assert!(r.ty == Ty::Uint(8));
    assert_eq!(r.term, t);
    assert_eq!(ite(c.term.clone(), a, b).unwrap().term, t);
    assert_eq!(bool(c.clone()).unwrap(), c.term);
}

#[test]
fn constants_are_read_from_folded_terms() {
    let a = uint("a", 8);
    let five = bv_lit(num(5), 8);
    assert_eq!(const_int(a.clone(), &five).unwrap(), num(5));
    let f = pf_lit_ir(&num(205), &cfg());
    assert_eq!(const_int(a.clone(), &f).unwrap(), num(3));
    let yes = leaf_term(Op::Const(Value::Bool(true)));
    assert_eq!(const_bool(&yes), Some(true));
    assert_eq!(const_bool(&five), None);
    assert_eq!(const_bool(&a.term), None);
    assert_eq!(const_value(&five), Some(Value::BitVector(BitVector::new(num(5), 8))));
    assert_eq!(const_value(&a.term), None);
    let v = const_val(a.clone(), &five).unwrap();
    assert!(v.ty == Ty::Uint(8));
    assert_eq!(v.term, five);
    let again = const_val(v.clone(), &v.term).unwrap();
    assert_eq!(again.term, v.term);
}

#[test]
fn literals() {
    let c = cfg();
    let f = field_lit(Integer::from_i64(-1), &c);
    assert!(f.ty == Ty::Field);
    assert_eq!(f.term, pf_lit_ir(&num(100), &c));
    assert_eq!(f.term, pf_lit_ir(&num(201), &c));
    assert_eq!(pf_index(7, &c), pf_lit_ir(&num(7), &c));
    let b = py_bool_lit(true);
    assert!(b.ty == Ty::Bool);
    assert_eq!(b.term, leaf_term(Op::Const(Value::Bool(true))));
    let u = uint_lit(num(200), 8);
    assert!(u.ty == Ty::Uint(8));
    assert_eq!(u.term, leaf_term(Op::Const(Value::BitVector(BitVector::new(num(200), 8)))));
}

#[test]
fn typed_constructors() {
    let c = cfg();
    let f = PyTerm::new_field(num(102), &c);
    assert!(*f.type_() == Ty::Field);
    assert_eq!(f.term, pf_lit_ir(&num(1), &c));
    let sixteen = PyTerm::new_u16(num(40000));
    assert!(sixteen.ty == Ty::Uint(16));
    assert_eq!(sixteen.term, bv_lit(num(40000), 16));
    let held = PyTerm::new_u8(num(300));
    assert!(held.ty == Ty::Uint(16));
    assert_eq!(held.term, bv_lit(num(300), 16));
    assert!(PyTerm::new_u32(num(7)).ty == Ty::Uint(32));
    assert_eq!(PyTerm::new_u32(num(7)).term, bv_lit(num(7), 32));
    assert!(PyTerm::new_u64(num(u64::MAX)).ty == Ty::Uint(64));
    assert_eq!(PyTerm::new_u64(num(u64::MAX)).term, bv_lit(num(u64::MAX), 64));
}

#[test]
fn a_large_modulus() {
    // 2^64 + 13 has 65 bits
    let c = Cfg::new(FieldT::new(Integer::from_limbs(false, vec![13, 1])));
    let s = Sort::Field(default_field(&c));
    let (a, b) = (var("a", s.clone()), var("b", s));
    let r = ult(PyTerm::new(Ty::Field, a.clone()), PyTerm::new(Ty::Field, b.clone()), &c).unwrap();
    let want = term2(
        Op::BvBinPred(BvBinPred::Ult),
        term1(Op::PfToBv(65), a),
        term1(Op::PfToBv(65), b),
    );
    assert_eq!(r.term, want);
    let minus = field_lit(Integer::from_i64(-1), &c);
    let top = Integer::from_limbs(false, vec![12, 1]);
    assert_eq!(const_int(minus.clone(), &minus.term).unwrap(), top);
}

#[test]
fn clones_share_and_equal() {
    let a = fld("a");
    let b = a.clone();
    assert_eq!(a.term, b.term);
    assert_eq!(a.term.op(), b.term.op());
    let t = times(&a.term, &b.term);
    assert_eq!(t.cs().len(), 2);
    assert_eq!(t.cs()[1], a.term);
}
