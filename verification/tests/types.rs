use python_terms::field::{default_field, BitVector, Cfg, FieldT, FieldV};
use python_terms::integer::Integer;
use python_terms::ir::{default_field_sort, Array, Op, Sort, Value};
use python_terms::names::{name_before, same_text};
use python_terms::ty::{FieldList, Ty};

fn cfg() -> Cfg {
    Cfg::new(FieldT::new(Integer::from_u64(101)))
}

fn elem(i: u64) -> FieldV {
    FieldT::new(Integer::from_u64(101)).new_v(&Integer::from_u64(i))
}

fn point() -> Ty {
    Ty::new_class(
        "Point".to_string(),
        vec![
            ("y".to_string(), Ty::Uint(8)),
            ("x".to_string(), Ty::Field),
            ("on".to_string(), Ty::Bool),
        ],
    )
}

#[test]
fn scalar_types_as_text() {
    assert_eq!(Ty::Field.to_string(), "field");
    assert_eq!(Ty::Bool.to_string(), "bool");
    assert_eq!(Ty::Uint(32).to_string(), "s32");
    assert_eq!(Ty::MutArray(4).to_string(), "MutArray(4)");
}

#[test]
fn array_types_show_the_outermost_size_first() {
    let inner = Ty::Array(2, Box::new(Ty::Bool));
    let outer = Ty::Array(3, Box::new(inner));
    assert_eq!(outer.to_string(), "bool[3][2]");
    assert_eq!(Ty::Array(5, Box::new(Ty::MutArray(4))).to_string(), "MutArray(4)[5]");
}

#[test]
fn class_types_show_their_fields_in_order() {
    assert_eq!(point().to_string(), "Point { on: bool, x: field, y: s8 }");
    assert_eq!(Ty::new_class("Unit".to_string(), vec![]).to_string(), "Unit");
    assert_eq!(Ty::Array(2, Box::new(point())).to_string(), "Point { on: bool, x: field, y: s8 }[2]");
}

#[test]
fn class_keys_are_sorted() {
    let list = FieldList::new(vec![
        ("b".to_string(), Ty::Bool),
        ("ab".to_string(), Ty::Field),
        ("a".to_string(), Ty::Uint(8)),
        ("B".to_string(), Ty::Field),
    ]);
    let names: Vec<&str> = (0..list.len()).map(|i| list.get(i).0).collect();
    assert_eq!(names, vec!["B", "a", "ab", "b"]);
    assert_eq!(list.search("ab").map(|(i, ty)| (i, ty.to_string())), Some((2, "field".to_string())));
    assert!(list.search("c").is_none());
}

#[test]
fn fields_with_one_name_keep_their_order() {
    let list = FieldList::new(vec![
        ("b".to_string(), Ty::Bool),
        ("a".to_string(), Ty::Field),
        ("b".to_string(), Ty::Uint(8)),
    ]);
    assert_eq!(list.get(1).1.to_string(), "bool");
    assert_eq!(list.get(2).1.to_string(), "s8");
    assert_eq!(list.search("b").map(|(i, _)| i), Some(1));
}

#[test]
fn the_order_of_given_fields_does_not_matter() {
    let again = Ty::new_class(
        "Point".to_string(),
        vec![
            ("on".to_string(), Ty::Bool),
            ("x".to_string(), Ty::Field),
            ("y".to_string(), Ty::Uint(8)),
        ],
    );
    assert!(point() == again);
    assert!(point() != Ty::new_class("Point".to_string(), vec![]));
    assert!(point() != Ty::Field);
}

#[test]
fn types_are_compared_by_their_parts() {
    assert!(Ty::Uint(8) == Ty::Uint(8));
    assert!(Ty::Uint(8) != Ty::Uint(16));
    assert!(Ty::Array(2, Box::new(Ty::Bool)) == Ty::Array(2, Box::new(Ty::Bool)));
    assert!(Ty::Array(2, Box::new(Ty::Bool)) != Ty::Array(3, Box::new(Ty::Bool)));
    assert!(Ty::Array(2, Box::new(Ty::Field)) != Ty::MutArray(2));
    assert!(point().clone() == point());
}

#[test]
fn value_type_of_an_array() {
    assert!(*Ty::Array(2, Box::new(Ty::Uint(16))).array_val_ty() == Ty::Uint(16));
}

#[test]
fn sorts_of_types() {
    let c = cfg();
    let f = default_field_sort(&c);
    assert_eq!(f, Sort::Field(default_field(&c)));
    assert_eq!(Ty::Bool.sort(&c), Sort::Bool);
    assert_eq!(Ty::Uint(8).sort(&c), Sort::BitVector(8));
    assert_eq!(
        Ty::Array(3, Box::new(Ty::Bool)).sort(&c),
        Sort::Array(Box::new(f.clone()), Box::new(Sort::Bool), 3)
    );
    assert_eq!(
        Ty::MutArray(3).sort(&c),
        Sort::Array(Box::new(f.clone()), Box::new(f.clone()), 3)
    );
    assert_eq!(point().sort(&c), Sort::Tuple(vec![Sort::Bool, f, Sort::BitVector(8)]));
}

#[test]
fn defaults_are_false_and_zero() {
    let c = cfg();
    let t = Ty::Array(2, Box::new(point())).default(&c);
    assert!(t.ty == Ty::Array(2, Box::new(point())));
    let one = Value::Tuple(vec![
        Value::Bool(false),
        Value::Field(elem(0)),
        Value::BitVector(BitVector::new(Integer::from_u64(0), 8)),
    ]);
    let want = Value::Array(Array {
        key_sort: Sort::Field(default_field(&c)),
        val_sort: point().sort(&c),
        elems: vec![one.clone(), one],
    });
    assert_eq!(t.term.op(), &Op::Const(want));
    assert!(t.term.cs().is_empty());
}

#[test]
fn a_default_of_a_mutable_array() {
    let c = cfg();
    let t = Ty::MutArray(2).default(&c);
    let f = Sort::Field(default_field(&c));
    let want = Value::Array(Array {
        key_sort: f.clone(),
        val_sort: f,
        elems: vec![Value::Field(elem(0)), Value::Field(elem(0))],
    });
    assert_eq!(t.term.op(), &Op::Const(want));
}

#[test]
fn field_elements_are_reduced() {
    assert_eq!(elem(205).i(), Integer::from_u64(3));
    let f = FieldT::new(Integer::from_u64(101));
    assert_eq!(f.new_v(&Integer::from_i64(-1)).i(), Integer::from_u64(100));
    assert_eq!(f.new_v(&Integer::from_i64(-1)).field(), &f);
}

#[test]
fn names_are_ordered_by_their_characters() {
    assert!(name_before("a", "b"));
    assert!(name_before("", "a"));
    assert!(name_before("a", "aa"));
    assert!(!name_before("aa", "a"));
    assert!(!name_before("a", "a"));
    assert!(name_before("Z", "a"));
    assert!(name_before("z", "\u{e9}"));
    assert!(same_text("abc", "abc"));
    assert!(!same_text("abc", "abd"));
    assert!(!same_text("abc", "ab"));
}

fn needs_eq<T: Eq>(a: &T, b: &T) -> bool {
    a == b
}

#[test]
fn debug_text_is_the_type_as_text() {
    assert_eq!(format!("{:?}", Ty::Uint(8)), "s8");
    assert_eq!(format!("{:?}", Ty::Array(2, Box::new(Ty::Bool))), "bool[2]");
    assert_eq!(format!("{:#?}", point()), "Point { on: bool, x: field, y: s8 }");
    assert!(needs_eq(&point(), &point()));
}
