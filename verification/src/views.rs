//! That the views of values keep every part of them.
use crate::error::{Error, ErrorView};
use crate::ir::{
    sort_view, terms_view, value_view, Op, OpView, Sort, SortView, Term, Value, ValueView,
};
use crate::pretty::{ending, Ending, PrettyError};
use crate::pyterm::{named_pys, outcome, pys_view, PyTerm, PyTermView};
use crate::python::{inputs_view, pre_view, Input};
use crate::ty::{named_tys, Ty, TyView};
use vstd::prelude::*;

verus! {

/// The view of a type keeps its width, name, fields, size and element type.
pub proof fn law_ty_view(t: Ty)
    ensures
        match t {
            Ty::Field => t@ == TyView::Field,
            Ty::Bool => t@ == TyView::Bool,
            Ty::Uint(w) => t@ == TyView::Uint(w as nat),
            Ty::DataClass(n, fs) => t@ == TyView::DataClass(n@, fs@),
            Ty::Array(n, b) => t@ == TyView::Array(n as nat, Box::new((*b)@)),
            Ty::MutArray(n) => t@ == TyView::MutArray(n as nat),
        },
{
}

/// The view of a sort keeps its width, modulus, parts and size.
pub proof fn law_sort_view(s: Sort)
    ensures
        match s {
            Sort::Bool => s@ == SortView::Bool,
            Sort::BitVector(w) => s@ == SortView::BitVector(w as nat),
            Sort::Field(f) => s@ == SortView::Field(f@),
            Sort::Tuple(ss) => s@ is Tuple && s@->Tuple_0.len() == ss@.len() && forall|i: int|
                0 <= i < ss@.len() ==> s@->Tuple_0[i] == (#[trigger] ss@[i])@,
            Sort::Array(k, v, n) => s@ == SortView::Array(
                Box::new((*k)@),
                Box::new((*v)@),
                n as nat,
            ),
            Sort::Foreign(k) => s@ == SortView::Foreign(k as nat),
        },
{
    reveal_with_fuel(sort_view, 2);
}

/// The view of a constant keeps its truth, number, parts and elements.
pub proof fn law_value_view(v: Value)
    ensures
        match v {
            Value::Bool(b) => v@ == ValueView::Bool(b),
            Value::Field(f) => v@ == ValueView::Field(f@),
            Value::BitVector(b) => v@ == ValueView::BitVector(b@),
            Value::Tuple(vs) => v@ is Tuple && v@->Tuple_0.len() == vs@.len() && forall|i: int|
                0 <= i < vs@.len() ==> v@->Tuple_0[i] == (#[trigger] vs@[i])@,
            Value::Array(a) => v@ is Array && v@->Array_0 == a.key_sort@ && v@->Array_1
                == a.val_sort@ && v@->Array_2.len() == a.elems@.len() && forall|i: int|
                0 <= i < a.elems@.len() ==> v@->Array_2[i] == (#[trigger] a.elems@[i])@,
            Value::Foreign(k) => v@ == ValueView::Foreign(k as nat),
        },
{
    reveal_with_fuel(value_view, 2);
}

/// The view of an operator keeps the operator and what it is given.
pub proof fn law_op_view(o: Op)
    ensures
        match o {
            Op::Const(v) => o@ == OpView::Const(v@),
            Op::Var(n, s) => o@ == OpView::Var(n@, s@),
            Op::Ite => o@ == OpView::Ite,
            Op::Eq => o@ == OpView::Eq,
            Op::Not => o@ == OpView::Not,
            Op::BoolNaryOp(x) => o@ == OpView::BoolNaryOp(x),
            Op::BvNaryOp(x) => o@ == OpView::BvNaryOp(x),
            Op::BvBinOp(x) => o@ == OpView::BvBinOp(x),
            Op::BvUnOp(x) => o@ == OpView::BvUnOp(x),
            Op::BvBinPred(x) => o@ == OpView::BvBinPred(x),
            Op::BvBit(i) => o@ == OpView::BvBit(i as nat),
            Op::BvConcat => o@ == OpView::BvConcat,
            Op::BoolToBv => o@ == OpView::BoolToBv,
            Op::PfNaryOp(x) => o@ == OpView::PfNaryOp(x),
            Op::PfUnOp(x) => o@ == OpView::PfUnOp(x),
            Op::PfToBv(n) => o@ == OpView::PfToBv(n as nat),
            Op::UbvToPf(f) => o@ == OpView::UbvToPf(f@),
            Op::Select => o@ == OpView::Select,
            Op::Store => o@ == OpView::Store,
            Op::CStore => o@ == OpView::CStore,
            Op::Fill(s, n) => o@ == OpView::Fill(s@, n as nat),
            Op::Array(k, v) => o@ == OpView::Array(k@, v@),
            Op::Tuple => o@ == OpView::Tuple,
            Op::Field(i) => o@ == OpView::Field(i as nat),
            Op::Update(i) => o@ == OpView::Update(i as nat),
            Op::Foreign(k, s) => o@ == OpView::Foreign(k as nat, s@),
        },
{
}

/// The view of an error keeps what it is about, in order.
pub proof fn law_error_view(e: Error)
    ensures
        match e {
            Error::NotArray(a) => e@ == ErrorView::NotArray(a@),
            Error::BinaryOp(a, b, c) => e@ == ErrorView::BinaryOp(a@, b@, c@),
            Error::UnaryOp(a, b) => e@ == ErrorView::UnaryOp(a@, b@),
            Error::Dissimilar(a, b) => e@ == ErrorView::Dissimilar(a@, b@),
            Error::Power(a, b) => e@ == ErrorView::Power(a@, b@),
            Error::NotConstInt(a) => e@ == ErrorView::NotConstInt(a@),
            Error::NotConstValue(a) => e@ == ErrorView::NotConstValue(a@),
            Error::NotBool(a) => e@ == ErrorView::NotBool(a@),
            Error::Shift(a, b, c) => e@ == ErrorView::Shift(a@, b@, c@),
            Error::Ite(a, b) => e@ == ErrorView::Ite(a@, b@),
            Error::Slice(a) => e@ == ErrorView::Slice(a@),
            Error::NoField(a) => e@ == ErrorView::NoField(a@),
            Error::NotClass(a) => e@ == ErrorView::NotClass(a@),
            Error::FieldType(a, b, c) => e@ == ErrorView::FieldType(a@, b@, c@),
            Error::Coerce(a) => e@ == ErrorView::Coerce(a@),
            Error::Index(a, b) => e@ == ErrorView::Index(a@, b@),
            Error::StoreTarget(a) => e@ == ErrorView::StoreTarget(a@),
            Error::StoreIndex(a) => e@ == ErrorView::StoreIndex(a@),
            Error::StoreValue(a) => e@ == ErrorView::StoreValue(a@),
            Error::InconsistentArray => e@ == ErrorView::InconsistentArray,
            Error::EmptyArray => e@ == ErrorView::EmptyArray,
            Error::UintToField(a) => e@ == ErrorView::UintToField(a@),
            Error::UintToBits(a) => e@ == ErrorView::UintToBits(a@),
            Error::UintFromBitsLen(a) => e@ == ErrorView::UintFromBitsLen(a as nat),
            Error::UintFromBits(a) => e@ == ErrorView::UintFromBits(a@),
            Error::BitArrayLeElems => e@ == ErrorView::BitArrayLeElems,
            Error::BitArrayLeLengths(a, b) => e@
                == ErrorView::BitArrayLeLengths(a as nat, b as nat),
            Error::BitArrayLeLength(a, b) => e@ == ErrorView::BitArrayLeLength(a as nat, b as nat),
            Error::BitArrayLeTypes(a, b) => e@ == ErrorView::BitArrayLeTypes(a@, b@),
        },
{
}

/// The views of values, inputs and results keep their parts.
pub proof fn law_value_parts(t: PyTerm, i: Input, e: Error)
    ensures
        t@.ty == t.ty@,
        t@.term == t.term@,
        i@.name == i.name@,
        i@.sort == i.sort@,
        i@.visibility == i.visibility,
        i.precompute matches Some(x) ==> i@.precompute == Some(x@),
        i.precompute is None ==> i@.precompute is None,
        outcome(Ok(t)) == Ok::<PyTermView, ErrorView>(t@),
        outcome(Err(e)) == Err::<PyTermView, ErrorView>(e@),
        pre_view(Some(t)) == Some(t@),
        pre_view(None) is None,
{
}

/// The views of lists keep their entries, in order.
pub proof fn law_list_views(
    ts: Seq<PyTerm>,
    fs: Seq<(String, PyTerm)>,
    us: Seq<Term>,
    is: Seq<Input>,
    ns: Seq<(String, Ty)>,
    i: int,
)
    ensures
        pys_view(ts).len() == ts.len(),
        0 <= i < ts.len() ==> pys_view(ts)[i] == ts[i]@,
        named_pys(fs).len() == fs.len(),
        0 <= i < fs.len() ==> named_pys(fs)[i] == (fs[i].0@, fs[i].1@),
        terms_view(us).len() == us.len(),
        0 <= i < us.len() ==> terms_view(us)[i] == us[i]@,
        inputs_view(is).len() == is.len(),
        0 <= i < is.len() ==> inputs_view(is)[i] == is[i]@,
        named_tys(ns).len() == ns.len(),
        0 <= i < ns.len() ==> named_tys(ns)[i] == (ns[i].0@, ns[i].1@),
{
}

/// Showing a value ends as the call says.
pub proof fn law_ending(e: PrettyError)
    ensures
        ending(Ok(())) == Ending::Done,
        ending(Err(e)) == Ending::Failed(e),
{
}

} // verus!
