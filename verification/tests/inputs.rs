use python_terms::field::{Cfg, FieldT};
use python_terms::integer::Integer;
use python_terms::ir::{
    default_field_sort, leaf_term, pf_index, term, term1, term2, term3, Op, Sort, Term,
};
use python_terms::pyterm::PyTerm;
use python_terms::python::{Input, Python};
use python_terms::ty::Ty;

fn cfg() -> Cfg {
    Cfg::new(FieldT::new(Integer::from_u64(101)))
}

fn fsort() -> Sort {
    default_field_sort(&cfg())
}

fn var(name: &str, ty: Ty) -> PyTerm {
    let sort = ty.sort(&cfg());
    PyTerm::new(ty, leaf_term(Op::Var(name.to_string(), sort)))
}

fn point() -> Ty {
    Ty::new_class(
        "Point".to_string(),
        vec![("y".to_string(), Ty::Uint(8)), ("x".to_string(), Ty::Field)],
    )
}

fn names(inputs: &[Input]) -> Vec<String> {
    inputs.iter().map(|i| i.name.clone()).collect()
}

fn terms(inputs: &[Input]) -> Vec<Term> {
    inputs
        .iter()
        .map(|i| leaf_term(Op::Var(i.name.clone(), i.sort.clone())))
        .collect()
}

#[test]
fn scalars_are_one_variable() {
    let py = Python::new();
    let c = cfg();
    let is = py.declare_input(&Ty::Uint(8), "u".to_string(), Some(1), None, &c);
    assert_eq!(is.len(), 1);
    assert_eq!(is[0].name, "u");
    assert_eq!(is[0].sort, Sort::BitVector(8));
    assert_eq!(is[0].visibility, Some(1));
    assert_eq!(is[0].precompute, None);
    let pre = var("p", Ty::Field);
    let is = py.declare_input(&Ty::Field, "f".to_string(), None, Some(pre.clone()), &c);
    assert_eq!(is[0].sort, fsort());
    assert_eq!(is[0].visibility, None);
    assert_eq!(is[0].precompute, Some(pre.term));
    let is = py.declare_input(&Ty::Bool, "b".to_string(), None, None, &c);
    assert_eq!(is[0].sort, Sort::Bool);
}

#[test]
fn names_follow_the_parts() {
    let py = Python::new();
    let ty = Ty::Array(2, Box::new(point()));
    let is = py.declare_input(&ty, "a".to_string(), None, None, &cfg());
    assert_eq!(names(&is), vec!["a.0.x", "a.0.y", "a.1.x", "a.1.y"]);
    assert_eq!(is[2].sort, fsort());
    assert_eq!(is[3].sort, Sort::BitVector(8));
    let is = py.declare_input(&Ty::MutArray(11), "m".to_string(), None, None, &cfg());
    assert_eq!(is[10].name, "m.10");
    assert_eq!(is[10].sort, fsort());
}

#[test]
fn names_of_inputs_differ() {
    let py = Python::new();
    let ty = Ty::Array(12, Box::new(Ty::Array(12, Box::new(point()))));
    let mut ns = names(&py.declare_input(&ty, "a".to_string(), None, None, &cfg()));
    assert_eq!(ns.len(), 288);
    ns.sort();
    ns.dedup();
    assert_eq!(ns.len(), 288);
}

#[test]
fn arrays_are_computed_element_by_element() {
    let py = Python::new();
    let c = cfg();
    let at = |t: &Term, i: usize| term2(Op::Select, t.clone(), pf_index(i, &c));
    let pre = var("p", Ty::Array(2, Box::new(Ty::Array(2, Box::new(Ty::Bool)))));
    let ty = Ty::Array(2, Box::new(Ty::Array(2, Box::new(Ty::Bool))));
    let is = py.declare_input(&ty, "a".to_string(), None, Some(pre.clone()), &c);
    assert_eq!(names(&is), vec!["a.0.0", "a.0.1", "a.1.0", "a.1.1"]);
    assert_eq!(is[2].precompute, Some(at(&at(&pre.term, 1), 0)));
    let pre = var("q", Ty::MutArray(2));
    let is = py.declare_input(&Ty::MutArray(2), "m".to_string(), None, Some(pre.clone()), &c);
    assert_eq!(is[1].precompute, Some(at(&pre.term, 1)));
}

#[test]
fn inputs_are_put_together() {
    let py = Python::new();
    let c = cfg();
    let ty = Ty::Array(2, Box::new(point()));
    let vars = terms(&py.declare_input(&ty, "a".to_string(), None, None, &c));
    let t = py.assemble_input(&ty, &vars, &c);
    assert!(t.ty == ty);
    let tuple = |i: usize| term(Op::Tuple, vec![vars[2 * i].clone(), vars[2 * i + 1].clone()]);
    let sort = Sort::Tuple(vec![fsort(), Sort::BitVector(8)]);
    assert_eq!(t.term, term(Op::Array(fsort(), sort), vec![tuple(0), tuple(1)]));
}

#[test]
fn a_mutable_array_input_becomes_an_array() {
    let py = Python::new();
    let c = cfg();
    let vars = terms(&py.declare_input(&Ty::MutArray(2), "m".to_string(), None, None, &c));
    let t = py.assemble_input(&Ty::MutArray(2), &vars, &c);
    assert!(t.ty == Ty::Array(2, Box::new(Ty::Field)));
    assert_eq!(t.term, term(Op::Array(fsort(), fsort()), vars));
}

#[test]
fn scalar_inputs_are_their_variable() {
    let py = Python::new();
    let v = var("b", Ty::Bool);
    let t = py.assemble_input(&Ty::Bool, &vec![v.term.clone()], &cfg());
    assert!(t.ty == Ty::Bool);
    assert_eq!(t.term, v.term);
}

#[test]
fn as_many_scalars_as_variables() {
    let py = Python::new();
    let c = cfg();
    let ty = Ty::Array(3, Box::new(point()));
    let is = py.declare_input(&ty, "a".to_string(), None, None, &c);
    let t = py.assemble_input(&ty, &terms(&is), &c);
    assert_eq!(t.terms(&ty.sort(&c), &c).len(), is.len());
}

#[test]
fn choices_and_starting_values() {
    let py = Python::new();
    let c = cfg();
    let (a, b) = (var("a", Ty::Uint(8)), var("b", Ty::Uint(8)));
    let k = var("c", Ty::Bool).term;
    let t = py.ite(k.clone(), a.clone(), b.clone());
    assert!(t.ty == Ty::Uint(8));
    assert_eq!(t.term, term3(Op::Ite, k, a.term, b.term));
    assert_eq!(py.create_uninit(&point(), &c).term, point().default(&c).term);
    assert_eq!(py.initialize_return(&Ty::Field, &c).term, Ty::Field.default(&c).term);
    assert!(py.initialize_return(&Ty::Field, &c).ty == Ty::Field);
}

#[test]
fn persistent_arrays_are_mutable_arrays() {
    let py = Python::new();
    let m = var("m", Ty::MutArray(7));
    let sort = Ty::MutArray(7).sort(&cfg());
    let t = py.wrap_persistent_array(m.term.clone(), &sort);
    assert!(t.ty == Ty::MutArray(7));
    assert_eq!(t.term, m.term);
    assert_eq!(term1(Op::Not, t.term.clone()).cs()[0], t.term);
}

#[test]
fn what_can_be_declared() {
    let py = Python::new();
    let bools = |n: usize| Ty::Array(n, Box::new(Ty::Bool));
    assert!(py.can_declare(&bools(2), None));
    assert!(!py.can_declare(&bools(0), None));
    assert!(!py.can_declare(&Ty::MutArray(0), None));
    assert!(py.can_declare(&bools(2), Some(&Ty::MutArray(2))));
    assert!(!py.can_declare(&bools(2), Some(&bools(3))));
    assert!(!py.can_declare(&bools(2), Some(&Ty::Bool)));
    assert!(py.can_declare(&Ty::MutArray(2), Some(&bools(2))));
    assert!(py.can_declare(&point(), None));
    assert!(!py.can_declare(&point(), Some(&point())));
    let empty = Ty::new_class("P".to_string(), vec![("x".to_string(), bools(0))]);
    assert!(!py.can_declare(&empty, None));
}

#[test]
fn what_is_declared_from_a_value_is_put_together_without_it() {
    let py = Python::new();
    let c = cfg();
    let ty = Ty::Array(2, Box::new(Ty::MutArray(2)));
    let pre_ty = Ty::Array(2, Box::new(Ty::Array(2, Box::new(Ty::Field))));
    assert!(py.can_declare(&ty, Some(&pre_ty)));
    assert!(py.can_declare(&ty, None));
    let is = py.declare_input(&ty, "a".to_string(), None, Some(var("p", pre_ty.clone())), &c);
    assert!(py.assemble_input(&ty, &terms(&is), &c).ty == pre_ty);
}

#[test]
fn sorts_that_are_made_of_scalars() {
    assert!(Ty::Array(2, Box::new(point())).sort(&cfg()).is_listable());
    assert!(!Sort::Foreign(3).is_listable());
    assert!(!Sort::Tuple(vec![Sort::Bool, Sort::Foreign(3)]).is_listable());
    let foreign = |n: usize| Sort::Array(Box::new(fsort()), Box::new(Sort::Foreign(0)), n);
    assert!(!foreign(2).is_listable());
    assert!(foreign(0).is_listable());
    let t = var("a", Ty::Bool);
    assert!(t.terms(&foreign(0), &cfg()).is_empty());
}
