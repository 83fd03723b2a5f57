use python_terms::arrays::{array, array_select, array_store, fill_array, mut_array_store, slice};
use python_terms::bits::{bit_array_le, field_to_bits, uint_from_bits, uint_to_bits, uint_to_field};
use python_terms::classes::{field_select, field_store};
use python_terms::error::Error;
use python_terms::field::{default_field, Cfg, FieldT};
use python_terms::integer::Integer;
use python_terms::ir::{
    default_field_sort, leaf_term, pf_index, term, term1, term2, term3, term4, BvBinPred, Op, Sort,
    Term,
};
use python_terms::pyterm::PyTerm;
use python_terms::ty::Ty;

fn cfg() -> Cfg {
    Cfg::new(FieldT::new(Integer::from_u64(101)))
}

fn fsort() -> Sort {
    default_field_sort(&cfg())
}

fn var(name: &str, ty: Ty) -> PyTerm {
    let sort = ty.sort(&cfg());
    PyTerm::new(ty, leaf_term(Op::Var(name.to_string(), sort)))
}

fn bools(n: usize) -> Ty {
    Ty::Array(n, Box::new(Ty::Bool))
}

fn at(a: &Term, i: usize) -> Term {
    term2(Op::Select, a.clone(), pf_index(i, &cfg()))
}

#[test]
fn arrays_of_elements() {
    let (a, b) = (var("a", Ty::Uint(8)), var("b", Ty::Uint(8)));
    let want = term(
        Op::Array(fsort(), Sort::BitVector(8)),
        vec![a.term.clone(), b.term.clone()],
    );
    let r = array(vec![a.clone(), b.clone()], Sort::BitVector(8), &cfg()).unwrap();
    assert!(r.ty == Ty::Array(2, Box::new(Ty::Uint(8))));
    assert_eq!(r.term, want);
    let again = PyTerm::new_array(vec![a, b], Sort::BitVector(8), &cfg()).unwrap();
    assert_eq!(again.term, want);
}

#[test]
fn arrays_need_elements_of_one_type() {
    let r = array(vec![], Sort::Bool, &cfg());
    assert!(matches!(r, Err(Error::EmptyArray)));
    let r = array(vec![var("a", Ty::Bool), var("b", Ty::Field)], Sort::Bool, &cfg());
    assert!(matches!(r, Err(Error::InconsistentArray)));
}

#[test]
fn arrays_filled_with_a_value() {
    let a = var("a", Ty::Bool);
    let r = fill_array(a.clone(), 5, &cfg()).unwrap();
    assert!(r.ty == bools(5));
    assert_eq!(r.term, term1(Op::Fill(fsort(), 5), a.term));
}

#[test]
fn elements_of_arrays() {
    let a = var("a", bools(3));
    let ts = a.clone().unwrap_array(&cfg()).unwrap();
    assert_eq!(ts.len(), 3);
    assert!(ts[2].ty == Ty::Bool);
    assert_eq!(ts[2].term, at(&a.term, 2));
    assert_eq!(a.clone().unwrap_array_ir(&cfg()).unwrap()[1], at(&a.term, 1));
    let m = var("m", Ty::MutArray(2));
    let ts = m.clone().unwrap_array(&cfg()).unwrap();
    assert!(ts[0].ty == Ty::Field);
    assert_eq!(ts[1].term, at(&m.term, 1));
    assert!(matches!(var("f", Ty::Field).unwrap_array(&cfg()), Err(Error::NotArray(_))));
}

#[test]
fn elements_make_the_array_type_again() {
    let a = var("a", bools(3));
    let ts = a.unwrap_array(&cfg()).unwrap();
    assert!(array(ts, Sort::Bool, &cfg()).unwrap().ty == bools(3));
    let ts = var("m", Ty::MutArray(2)).unwrap_array(&cfg()).unwrap();
    let r = array(ts, fsort(), &cfg()).unwrap();
    assert!(r.ty == Ty::Array(2, Box::new(Ty::Field)));
}

#[test]
fn slices_of_arrays() {
    let a = var("a", bools(5));
    let r = slice(a.clone(), Some(1), Some(3), Sort::Bool, &cfg()).unwrap();
    assert!(r.ty == bools(2));
    let want = term(Op::Array(fsort(), Sort::Bool), vec![at(&a.term, 1), at(&a.term, 2)]);
    assert_eq!(r.term, want);
    assert!(slice(a.clone(), None, None, Sort::Bool, &cfg()).unwrap().ty == bools(5));
    assert!(slice(a.clone(), Some(3), None, Sort::Bool, &cfg()).unwrap().ty == bools(2));
    assert!(slice(a.clone(), None, Some(4), Sort::Bool, &cfg()).unwrap().ty == bools(4));
    let empty = slice(a, Some(2), Some(2), Sort::Bool, &cfg());
    assert!(matches!(empty, Err(Error::EmptyArray)));
    let m = var("m", Ty::MutArray(3));
    let r = slice(m, Some(1), None, fsort(), &cfg()).unwrap();
    assert!(r.ty == Ty::Array(2, Box::new(Ty::Field)));
    let r = slice(var("f", Ty::Field), Some(9), Some(2), fsort(), &cfg());
    assert!(matches!(r, Err(Error::Slice(_))));
}

#[test]
fn reading_arrays() {
    let a = var("a", bools(5));
    let i = var("i", Ty::Field);
    let r = array_select(a.clone(), i.clone(), &cfg()).unwrap();
    assert!(r.ty == Ty::Bool);
    assert_eq!(r.term, term2(Op::Select, a.term.clone(), i.term));
    let u = var("u", Ty::Uint(8));
    let r = array_select(a.clone(), u.clone(), &cfg()).unwrap();
    let index = term1(Op::UbvToPf(default_field(&cfg())), u.term.clone());
    assert_eq!(r.term, term2(Op::Select, a.term.clone(), index.clone()));
    let m = var("m", Ty::MutArray(3));
    let r = array_select(m.clone(), u, &cfg()).unwrap();
    assert!(r.ty == Ty::Field);
    assert_eq!(r.term, term2(Op::Select, m.term, index));
    let r = array_select(a.clone(), var("b", Ty::Bool), &cfg());
    assert!(matches!(r, Err(Error::Index(_, _))));
    let r = array_select(var("b", Ty::Bool), var("i", Ty::Field), &cfg());
    assert!(matches!(r, Err(Error::Index(_, _))));
}

#[test]
fn writing_arrays() {
    let a = var("a", bools(5));
    let (i, v) = (var("i", Ty::Field), var("v", Ty::Bool));
    let r = array_store(a.clone(), i.clone(), v.clone(), &cfg()).unwrap();
    assert!(r.ty == bools(5));
    assert_eq!(r.term, term3(Op::Store, a.term.clone(), i.term, v.term.clone()));
    let u = var("u", Ty::Uint(8));
    let index = term1(Op::UbvToPf(default_field(&cfg())), u.term.clone());
    let r = array_store(a.clone(), u, v.clone(), &cfg()).unwrap();
    assert_eq!(r.term, term3(Op::Store, a.term.clone(), index, v.term.clone()));
    let r = array_store(var("m", Ty::MutArray(3)), var("i", Ty::Field), v.clone(), &cfg());
    assert!(matches!(r, Err(Error::Index(_, _))));
    let r = array_store(a, var("b", Ty::Bool), v, &cfg());
    assert!(matches!(r, Err(Error::Index(_, _))));
}

#[test]
fn writing_arrays_where_a_condition_holds() {
    let c = leaf_term(Op::Var("c".to_string(), Sort::Bool));
    let m = var("m", Ty::MutArray(3));
    let (i, v) = (var("i", Ty::Field), var("v", Ty::Uint(8)));
    let val = term1(Op::UbvToPf(default_field(&cfg())), v.term.clone());
    let r = mut_array_store(m.clone(), i.clone(), v.clone(), c.clone(), &cfg()).unwrap();
    assert!(r.ty == Ty::MutArray(3));
    assert_eq!(
        r.term,
        term4(Op::CStore, m.term.clone(), i.term.clone(), val, c.clone())
    );
    let a = var("a", Ty::Array(2, Box::new(Ty::Field)));
    let r = mut_array_store(a.clone(), i.clone(), i.clone(), c.clone(), &cfg()).unwrap();
    assert!(r.ty == a.ty);
    let b = var("b", Ty::Bool);
    let r = mut_array_store(b.clone(), i.clone(), v.clone(), c.clone(), &cfg());
    assert!(matches!(r, Err(Error::StoreTarget(_))));
    let r = mut_array_store(m.clone(), b.clone(), v, c.clone(), &cfg());
    assert!(matches!(r, Err(Error::StoreIndex(_))));
    let r = mut_array_store(m, i, b, c, &cfg());
    assert!(matches!(r, Err(Error::StoreValue(_))));
}

#[test]
fn integers_as_field_elements() {
    let u = var("u", Ty::Uint(8));
    let r = uint_to_field(u.clone(), &cfg()).unwrap();
    assert!(r.ty == Ty::Field);
    assert_eq!(r.term, term1(Op::UbvToPf(default_field(&cfg())), u.term));
    let r = uint_to_field(var("b", Ty::Bool), &cfg());
    assert!(matches!(r, Err(Error::UintToField(_))));
}

#[test]
fn bits_come_most_significant_first() {
    let u = var("u", Ty::Uint(3));
    let r = uint_to_bits(u.clone(), &cfg()).unwrap();
    assert!(r.ty == bools(3));
    let bit = |i: usize| term1(Op::BvBit(i), u.term.clone());
    assert_eq!(r.term, term(Op::Array(fsort(), Sort::Bool), vec![bit(2), bit(1), bit(0)]));
    let r = uint_to_bits(var("f", Ty::Field), &cfg());
    assert!(matches!(r, Err(Error::UintToBits(_))));
}

#[test]
fn bits_of_field_elements() {
    let f = var("f", Ty::Field);
    let r = field_to_bits(f.clone(), 2, &cfg()).unwrap();
    assert!(r.ty == bools(2));
    let bv = term1(Op::PfToBv(2), f.term);
    let bit = |i: usize| term1(Op::BvBit(i), bv.clone());
    assert_eq!(r.term, term(Op::Array(fsort(), Sort::Bool), vec![bit(1), bit(0)]));
    let r = field_to_bits(var("u", Ty::Uint(8)), 2, &cfg());
    assert!(matches!(r, Err(Error::UintToBits(_))));
}

#[test]
fn integers_from_bits() {
    let b = var("b", bools(8));
    let r = uint_from_bits(b.clone(), &cfg()).unwrap();
    assert!(r.ty == Ty::Uint(8));
    let cs = (0..8).map(|i| term1(Op::BoolToBv, at(&b.term, i))).collect();
    assert_eq!(r.term, term(Op::BvConcat, cs));
    assert!(uint_from_bits(var("b", bools(16)), &cfg()).unwrap().ty == Ty::Uint(16));
    assert!(uint_from_bits(var("b", bools(32)), &cfg()).unwrap().ty == Ty::Uint(32));
    assert!(uint_from_bits(var("b", bools(64)), &cfg()).unwrap().ty == Ty::Uint(64));
    let r = uint_from_bits(var("b", bools(7)), &cfg());
    assert!(matches!(r, Err(Error::UintFromBitsLen(7))));
    let r = uint_from_bits(var("b", Ty::Array(8, Box::new(Ty::Field))), &cfg());
    assert!(matches!(r, Err(Error::UintFromBits(_))));
    let r = uint_from_bits(var("b", Ty::Bool), &cfg());
    assert!(matches!(r, Err(Error::UintFromBits(_))));
}

#[test]
fn bits_and_back_keep_the_type() {
    for w in [8usize, 16, 32, 64] {
        let u = var("u", Ty::Uint(w));
        let back = uint_from_bits(uint_to_bits(u, &cfg()).unwrap(), &cfg()).unwrap();
        assert!(back.ty == Ty::Uint(w));
        let bits = uint_to_bits(back, &cfg()).unwrap();
        assert!(bits.ty == bools(w));
    }
}

#[test]
fn comparing_bits() {
    let (a, b) = (var("a", bools(2)), var("b", bools(2)));
    let r = bit_array_le(a.clone(), b.clone(), 2, &cfg()).unwrap();
    assert!(r.ty == Ty::Bool);
    let joined = |t: &PyTerm| {
        term(
            Op::BvConcat,
            vec![term1(Op::BoolToBv, at(&t.term, 0)), term1(Op::BoolToBv, at(&t.term, 1))],
        )
    };
    assert_eq!(r.term, term2(Op::BvBinPred(BvBinPred::Ule), joined(&a), joined(&b)));
    let fs = var("f", Ty::Array(2, Box::new(Ty::Field)));
    let r = bit_array_le(a.clone(), fs, 2, &cfg());
    assert!(matches!(r, Err(Error::BitArrayLeElems)));
    let r = bit_array_le(a.clone(), var("c", bools(3)), 2, &cfg());
    assert!(matches!(r, Err(Error::BitArrayLeLengths(2, 3))));
    let r = bit_array_le(a.clone(), b, 3, &cfg());
    assert!(matches!(r, Err(Error::BitArrayLeLength(3, 2))));
    let r = bit_array_le(a, var("d", Ty::Bool), 2, &cfg());
    assert!(matches!(r, Err(Error::BitArrayLeTypes(_, _))));
}

fn point() -> PyTerm {
    PyTerm::new_class(
        "Point".to_string(),
        vec![
            ("y".to_string(), var("b", Ty::Uint(8))),
            ("x".to_string(), var("a", Ty::Field)),
        ],
    )
}

#[test]
fn class_values_have_their_fields_in_order() {
    let c = point();
    let ty = Ty::new_class(
        "Point".to_string(),
        vec![("x".to_string(), Ty::Field), ("y".to_string(), Ty::Uint(8))],
    );
    assert!(c.ty == ty);
    let want = term(Op::Tuple, vec![var("a", Ty::Field).term, var("b", Ty::Uint(8)).term]);
    assert_eq!(c.term, want);
}

#[test]
fn given_order_of_class_fields_does_not_matter() {
    let again = PyTerm::new_class(
        "Point".to_string(),
        vec![
            ("x".to_string(), var("a", Ty::Field)),
            ("y".to_string(), var("b", Ty::Uint(8))),
        ],
    );
    assert!(again.ty == point().ty);
    assert_eq!(again.term, point().term);
}

#[test]
fn the_last_value_given_for_a_field_counts() {
    let c = PyTerm::new_class(
        "P".to_string(),
        vec![
            ("x".to_string(), var("a", Ty::Field)),
            ("x".to_string(), var("b", Ty::Field)),
        ],
    );
    assert_eq!(c.term, term(Op::Tuple, vec![var("b", Ty::Field).term]));
    assert_eq!(c.ty.to_string(), "P { x: field, x: field }");
}

#[test]
fn reading_fields() {
    let c = point();
    let x = field_select(&c, "x").unwrap();
    assert!(x.ty == Ty::Field);
    assert_eq!(x.term, term1(Op::Field(0), c.term.clone()));
    let y = field_select(&c, "y").unwrap();
    assert!(y.ty == Ty::Uint(8));
    assert_eq!(y.term, term1(Op::Field(1), c.term.clone()));
    assert!(matches!(field_select(&c, "z"), Err(Error::NoField(_))));
    assert!(matches!(field_select(&var("b", Ty::Bool), "x"), Err(Error::NotClass(_))));
}

#[test]
fn writing_fields() {
    let c = point();
    let v = var("v", Ty::Uint(8));
    let r = field_store(c.clone(), "y", v.clone()).unwrap();
    assert!(r.ty == c.ty);
    assert_eq!(r.term, term2(Op::Update(1), c.term.clone(), v.term.clone()));
    assert!(field_select(&r, "y").unwrap().ty == Ty::Uint(8));
    assert!(matches!(field_store(c.clone(), "x", v.clone()), Err(Error::FieldType(_, _, _))));
    assert!(matches!(field_store(c, "z", v.clone()), Err(Error::NoField(_))));
    assert!(matches!(field_store(var("b", Ty::Bool), "x", v), Err(Error::NotClass(_))));
}

#[test]
fn scalars_inside_values() {
    let inner = Ty::new_class(
        "P".to_string(),
        vec![("x".to_string(), Ty::Field), ("y".to_string(), Ty::Bool)],
    );
    let ty = Ty::Array(2, Box::new(inner));
    let a = var("a", ty.clone());
    let ts = a.terms(&ty.sort(&cfg()), &cfg());
    let part = |i: usize, f: usize| term1(Op::Field(f), at(&a.term, i));
    assert_eq!(ts, vec![part(0, 0), part(0, 1), part(1, 0), part(1, 1)]);
    let u = var("u", Ty::Uint(8));
    assert_eq!(u.terms(&Sort::BitVector(8), &cfg()), vec![u.term.clone()]);
}
