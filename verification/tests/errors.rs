use python_terms::arrays::{array, array_select, mut_array_store, slice};
use python_terms::bits::{bit_array_le, field_to_bits, uint_from_bits, uint_to_bits, uint_to_field};
use python_terms::classes::{field_select, field_store};
use python_terms::error::Error;
use python_terms::field::{Cfg, FieldT};
use python_terms::integer::Integer;
use python_terms::ir::{leaf_term, Op, Sort, Term};
use python_terms::ops::{
    add, and, bool, cond, const_int, const_val, eq, neg, neq, not, pow, shl, shr, uint_lit, ult,
};
use python_terms::pyterm::PyTerm;
use python_terms::ty::Ty;

fn cfg() -> Cfg {
    Cfg::new(FieldT::new(Integer::from_u64(101)))
}

fn var(name: &str, ty: Ty) -> PyTerm {
    let sort = ty.sort(&cfg());
    PyTerm::new(ty, leaf_term(Op::Var(name.to_string(), sort)))
}

fn bools(n: usize) -> Ty {
    Ty::Array(n, Box::new(Ty::Bool))
}

fn name_of(t: &Term) -> String {
    match t.op() {
        Op::Var(n, _) => n.clone(),
        _ => "?".to_string(),
    }
}

fn text<T>(r: Result<T, Error>) -> String {
    match r {
        Ok(_) => "ok".to_string(),
        Err(e) => {
            let printed: Vec<String> = e.terms().iter().map(name_of).collect();
            e.message(&printed)
        }
    }
}

fn f() -> PyTerm {
    var("f", Ty::Field)
}

fn b() -> PyTerm {
    var("b", Ty::Bool)
}

fn u8s() -> PyTerm {
    var("u", Ty::Uint(8))
}

#[test]
fn refused_operators() {
    assert_eq!(text(add(f(), u8s())), "Cannot perform op '+' on field and s8");
    assert_eq!(text(add(b(), b())), "Cannot perform op '+' on bool and bool");
    assert_eq!(
        text(add(var("x", Ty::Uint(8)), var("y", Ty::Uint(16)))),
        "Cannot perform op '+' on s8 and s16"
    );
    assert_eq!(text(and(f(), b())), "Cannot perform op 'and' on field and bool");
    assert_eq!(text(ult(b(), b(), &cfg())), "Cannot perform op '<' on bool and bool");
    assert_eq!(text(neg(b())), "Cannot perform op 'unary-' on bool");
    assert_eq!(text(not(f())), "Cannot perform op 'not' on field");
}

#[test]
fn refused_comparisons_and_choices() {
    assert_eq!(text(eq(f(), b())), "Cannot '==' dissimilar types field and bool");
    assert_eq!(text(neq(u8s(), b())), "Cannot '==' dissimilar types s8 and bool");
    assert_eq!(text(cond(b(), f(), u8s())), "Cannot perform ITE on f and u");
    assert_eq!(text(cond(f(), f(), f())), "field is not a boolean");
    assert_eq!(text(bool(u8s())), "s8 is not a boolean");
}

#[test]
fn refused_constants() {
    let unfolded = f().term;
    assert_eq!(text(const_int(f(), &unfolded)), "f is not a constant integer");
    assert_eq!(text(const_val(f(), &unfolded)), "f is not a constant value");
}

#[test]
fn refused_powers_and_shifts() {
    let n = uint_lit(Integer::from_u64(3), 32);
    let folded = n.term.clone();
    assert_eq!(
        text(pow(u8s(), var("n", Ty::Uint(32)), &folded, &cfg())),
        "Cannot compute u ** n : must be Field ** U32"
    );
    assert_eq!(
        text(pow(f(), var("n", Ty::Uint(8)), &folded, &cfg())),
        "Cannot compute f ** n : must be Field ** U32"
    );
    let unfolded = var("n", Ty::Uint(32)).term;
    assert_eq!(
        text(pow(f(), var("n", Ty::Uint(32)), &unfolded, &cfg())),
        "n is not a constant integer"
    );
    assert_eq!(text(shl(f(), n.clone(), &folded)), "Cannot perform op '<<' on field and 3");
    assert_eq!(text(shr(b(), n, &folded)), "Cannot perform op '>>' on bool and 3");
    assert_eq!(text(shl(u8s(), var("n", Ty::Uint(32)), &unfolded)), "n is not a constant integer");
}

#[test]
fn refused_arrays() {
    assert_eq!(text(f().unwrap_array(&cfg())), "Not an array: field");
    assert_eq!(text(f().unwrap_array_ir(&cfg())), "Not an array: field");
    assert_eq!(text(array(vec![], Sort::Bool, &cfg())), "Empty array");
    assert_eq!(text(array(vec![f(), b()], Sort::Bool, &cfg())), "Inconsistent types in array");
    assert_eq!(text(slice(u8s(), None, None, Sort::Bool, &cfg())), "Cannot slice s8");
    assert_eq!(
        text(array_select(var("a", bools(2)), b(), &cfg())),
        "Cannot index bool[2] using bool"
    );
    let c = b().term;
    assert_eq!(
        text(mut_array_store(f(), f(), f(), c.clone(), &cfg())),
        "Can only call mut_array_store on arrays, not f"
    );
    let m = var("m", Ty::MutArray(2));
    assert_eq!(
        text(mut_array_store(m.clone(), b(), f(), c.clone(), &cfg())),
        "Cannot coerce b to a field element: mutable array index"
    );
    assert_eq!(
        text(mut_array_store(m, f(), b(), c, &cfg())),
        "Cannot coerce b to a field element: mutable array value"
    );
    assert_eq!(
        Error::Coerce(b().term).message(&vec!["b".to_string()]),
        "Cannot coerce b to a field element"
    );
}

#[test]
fn refused_bits() {
    let c = cfg();
    assert_eq!(text(uint_to_field(b(), &c)), "Cannot do uint-to-field on bool");
    assert_eq!(text(uint_to_bits(b(), &c)), "Cannot do uint-to-bits on bool");
    assert_eq!(text(field_to_bits(u8s(), 8, &c)), "Cannot do uint-to-bits on s8");
    assert_eq!(
        text(uint_from_bits(var("a", bools(7)), &c)),
        "Cannot do uint-from-bits on len 7 array"
    );
    assert_eq!(text(uint_from_bits(f(), &c)), "Cannot do uint-from-bits on field");
    let a = var("a", bools(2));
    assert_eq!(
        text(bit_array_le(a.clone(), var("m", Ty::Array(2, Box::new(Ty::Field))), 2, &c)),
        "bit-array-le must be called on arrays of Bools"
    );
    assert_eq!(
        text(bit_array_le(a.clone(), var("m", bools(3)), 2, &c)),
        "bit-array-le called on arrays with lengths 2 != 3"
    );
    assert_eq!(
        text(bit_array_le(a.clone(), a.clone(), 4, &c)),
        "bit-array-le::<4> called on arrays with length 2"
    );
    assert_eq!(
        text(bit_array_le(a, f(), 2, &c)),
        "Cannot do bit-array-le on (bool[2], field)"
    );
}

#[test]
fn refused_fields() {
    let c = PyTerm::new_class("P".to_string(), vec![("x".to_string(), f())]);
    assert_eq!(text(field_select(&c, "y")), "No field 'y'");
    assert_eq!(text(field_select(&b(), "y")), "bool is not a class");
    assert_eq!(text(field_store(c.clone(), "y", f())), "No field 'y'");
    assert_eq!(text(field_store(c, "x", b())), "term b assigned to field x of type field");
    assert_eq!(text(field_store(b(), "x", b())), "bool is not a class");
}
