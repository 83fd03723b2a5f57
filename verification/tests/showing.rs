use python_terms::field::{BitVector, Cfg, FieldT};
use python_terms::integer::Integer;
use python_terms::ir::{leaf_term, Array, Op, Sort, Value};
use python_terms::ops::{field_lit, py_bool_lit, uint_lit};
use python_terms::pretty::{Ending, PrettyError};
use python_terms::pyterm::PyTerm;
use python_terms::ty::Ty;

fn cfg() -> Cfg {
    Cfg::new(FieldT::new(Integer::from_limbs(false, vec![13, 1])))
}

fn shown(t: &PyTerm) -> (String, Result<(), PrettyError>) {
    let mut s = String::new();
    let r = t.pretty(&mut s);
    (s, r)
}

fn done(text: &str) -> (String, Result<(), PrettyError>) {
    (text.to_string(), Ok(()))
}

#[test]
fn constants_as_text() {
    assert_eq!(shown(&py_bool_lit(true)), done("true"));
    assert_eq!(shown(&py_bool_lit(false)), done("false"));
    assert_eq!(shown(&field_lit(Integer::from_u64(7), &cfg())), done("7f"));
    assert_eq!(
        shown(&field_lit(Integer::from_i64(-1), &cfg())),
        done("18446744073709551628f")
    );
    assert_eq!(shown(&uint_lit(Integer::from_u64(10), 8)), done("0x0a"));
    assert_eq!(shown(&uint_lit(Integer::from_u64(0), 16)), done("0x0000"));
    assert_eq!(shown(&uint_lit(Integer::from_u64(0xbeef), 32)), done("0x0000beef"));
    assert_eq!(shown(&uint_lit(Integer::from_u64(1), 64)), done("0x0000000000000001"));
}

#[test]
fn text_is_added_at_the_end() {
    let mut s = "value: ".to_string();
    assert_eq!(py_bool_lit(true).pretty(&mut s), Ok(()));
    assert_eq!(s, "value: true");
}

fn bits(v: u64) -> Value {
    Value::BitVector(BitVector::new(Integer::from_u64(v), 8))
}

fn point_ty() -> Ty {
    Ty::new_class(
        "Point".to_string(),
        vec![("x".to_string(), Ty::Uint(8)), ("on".to_string(), Ty::Bool)],
    )
}

fn constant(ty: Ty, v: Value) -> PyTerm {
    PyTerm::new(ty, leaf_term(Op::Const(v)))
}

#[test]
fn classes_and_arrays_as_text() {
    let point = Value::Tuple(vec![Value::Bool(true), bits(3)]);
    let want = "Point { on: true, x: 0x03, }";
    assert_eq!(shown(&constant(point_ty(), point.clone())), done(want));
    let a = Value::Array(Array {
        key_sort: Sort::Bool,
        val_sort: Sort::Bool,
        elems: vec![point.clone(), point],
    });
    let ty = Ty::Array(2, Box::new(point_ty()));
    assert_eq!(shown(&constant(ty, a)), done(&format!("[{want}, {want}, ]")));
    let empty = constant(Ty::new_class("Unit".to_string(), vec![]), Value::Tuple(vec![]));
    assert_eq!(shown(&empty), done("Unit { }"));
}

#[test]
fn what_is_not_a_constant_is_not_shown() {
    let t = PyTerm::new(Ty::Bool, leaf_term(Op::Var("b".to_string(), Sort::Bool)));
    assert_eq!(shown(&t), (String::new(), Err(PrettyError::NotConst)));
    assert_eq!(PrettyError::NotConst.message(), "not a const val");
}

#[test]
fn what_has_another_type_is_shown_up_to_there() {
    let t = constant(Ty::Bool, Value::Tuple(vec![]));
    assert_eq!(shown(&t), (String::new(), Err(PrettyError::NotDataClass)));
    assert_eq!(
        PrettyError::NotDataClass.message(),
        "expected dataclass, got something else"
    );
    let a = Value::Array(Array { key_sort: Sort::Bool, val_sort: Sort::Bool, elems: vec![] });
    let t = constant(Ty::MutArray(0), a.clone());
    assert_eq!(shown(&t), (String::new(), Err(PrettyError::NotArray)));
    assert_eq!(PrettyError::NotArray.message(), "expected array, got something else");
    let t = constant(point_ty(), Value::Tuple(vec![Value::Bool(true), a]));
    assert_eq!(
        shown(&t),
        ("Point { on: true, x: ".to_string(), Err(PrettyError::NotArray))
    );
}

#[test]
fn defaults_are_shown_to_their_end() {
    let ty = Ty::Array(2, Box::new(point_ty()));
    let one = "Point { on: false, x: 0x00, }";
    assert_eq!(shown(&ty.default(&cfg())), done(&format!("[{one}, {one}, ]")));
}

#[test]
fn how_showing_ends_is_known_before() {
    assert_eq!(py_bool_lit(true).pretty_ending(), Ending::Done);
    assert_eq!(uint_lit(Integer::from_u64(1), 9).pretty_ending(), Ending::Unprintable);
    let t = PyTerm::new(Ty::Bool, leaf_term(Op::Var("b".to_string(), Sort::Bool)));
    assert_eq!(t.pretty_ending(), Ending::Failed(PrettyError::NotConst));
    let odd = Value::BitVector(BitVector::new(Integer::from_u64(1), 9));
    let t = constant(point_ty(), Value::Tuple(vec![Value::Bool(true), odd.clone()]));
    assert_eq!(t.pretty_ending(), Ending::Unprintable);
    let a = Value::Array(Array {
        key_sort: Sort::Bool,
        val_sort: Sort::Bool,
        elems: vec![Value::Tuple(vec![]), odd],
    });
    let t = constant(Ty::Array(2, Box::new(Ty::Bool)), a);
    assert_eq!(t.pretty_ending(), Ending::Failed(PrettyError::NotDataClass));
    assert_eq!(constant(Ty::Bool, Value::Foreign(0)).pretty_ending(), Ending::Unprintable);
}

#[test]
fn elements_without_a_key_are_not_shown() {
    let two = Cfg::new(FieldT::new(Integer::from_u64(2)));
    let three = Cfg::new(FieldT::new(Integer::from_u64(3)));
    let ty = Ty::Array(3, Box::new(Ty::Field));
    assert_eq!(shown(&ty.default(&two)), done("[0f, 0f, ]"));
    assert_eq!(shown(&ty.default(&three)), done("[0f, 0f, 0f, ]"));
    let keyed = |key_sort: Sort| {
        let elems = vec![bits(1), bits(2), bits(3)];
        let a = Value::Array(Array { key_sort, val_sort: Sort::BitVector(8), elems });
        shown(&constant(Ty::Array(3, Box::new(Ty::Uint(8))), a))
    };
    assert_eq!(keyed(Sort::Bool), done("[0x01, 0x02, ]"));
    assert_eq!(keyed(Sort::BitVector(0)), done("[0x01, ]"));
    assert_eq!(keyed(Sort::BitVector(64)), done("[0x01, 0x02, 0x03, ]"));
    assert_eq!(keyed(Sort::Tuple(vec![])), done("[0x01, ]"));
    assert_eq!(keyed(Sort::Tuple(vec![Sort::Bool, Sort::Bool])), done("[0x01, 0x02, 0x03, ]"));
    assert_eq!(keyed(Sort::Foreign(0)), done("[0x01, 0x02, 0x03, ]"));
}

#[test]
fn keys_of_sorts_are_counted() {
    assert_eq!(Sort::Bool.keys_up_to(9), 2);
    assert_eq!(Sort::Bool.keys_up_to(0), 0);
    assert_eq!(Sort::BitVector(3).keys_up_to(100), 8);
    assert_eq!(Sort::BitVector(400).keys_up_to(usize::MAX), usize::MAX);
    let f = Sort::Field(FieldT::new(Integer::from_u64(101)));
    assert_eq!(f.keys_up_to(1000), 101);
    assert_eq!(f.keys_up_to(100), 100);
    let large = FieldT::new(Integer::from_limbs(false, vec![13, 1]));
    assert_eq!(Sort::Field(large).keys_up_to(usize::MAX), usize::MAX);
    assert_eq!(Sort::Tuple(vec![Sort::Bool, f]).keys_up_to(1000), 202);
    let lists = |n: usize| Sort::Array(Box::new(Sort::Bool), Box::new(Sort::Bool), n);
    assert_eq!(lists(5).keys_up_to(1000), 32);
    assert_eq!(lists(500).keys_up_to(1000), 1000);
    let units = Sort::Array(Box::new(Sort::Bool), Box::new(Sort::Tuple(vec![])), usize::MAX);
    assert_eq!(units.keys_up_to(1000), 1);
}
