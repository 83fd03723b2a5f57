//! Arrays: building, slicing, reading and writing.
use crate::error::{Error, ErrorView};
use crate::field::{default_field, Cfg};
use crate::ir::{
    default_field_sort, node, node1, node2, node3, node4, term, term1, term2, term3, term4,
    terms_view, Op, OpView, Sort, SortView, Term, TermView,
};
use crate::pyterm::{outcome, py, pys_view, unwrapped, PyTerm, PyTermView};
use crate::ty::{Ty, TyView};
use vstd::prelude::*;

verus! {

/// The terms of values.
pub open spec fn value_terms(ts: Seq<PyTermView>) -> Seq<TermView> {
    Seq::new(ts.len(), |i: int| ts[i].term)
}

/// The array of the given elements, where `sort` is the sort of the first
/// element's term. There is at least one, and all have the type of the first.
pub open spec fn array_value(ts: Seq<PyTermView>, sort: SortView, p: int) -> Result<
    PyTermView,
    ErrorView,
> {
    if ts.len() == 0 {
        Err(ErrorView::EmptyArray)
    } else if exists|i: int| 0 <= i < ts.len() && #[trigger] ts[i].ty != ts[0].ty {
        Err(ErrorView::InconsistentArray)
    } else {
        Ok(
            py(
                TyView::Array(ts.len(), Box::new(ts[0].ty)),
                node(OpView::Array(SortView::Field(p), sort), value_terms(ts)),
            ),
        )
    }
}

/// The term of an array that is indexed by field elements.
pub(crate) fn ir_array(value_sort: Sort, elems: Vec<Term>, cfg: &Cfg) -> (r: Term)
    ensures
        r@ == node(OpView::Array(SortView::Field(cfg@), value_sort@), terms_view(elems@)),
{
    term(Op::Array(default_field_sort(cfg), value_sort), elems)
}

/// The array with one value throughout.
pub open spec fn filled(value: PyTermView, size: nat, p: int) -> PyTermView {
    py(
        TyView::Array(size, Box::new(value.ty)),
        node1(OpView::Fill(SortView::Field(p), size), value.term),
    )
}

/// The array with one value throughout.
pub fn fill_array(value: PyTerm, size: usize, cfg: &Cfg) -> (r: Result<PyTerm, Error>)
    ensures
        outcome(r) == Ok::<PyTermView, ErrorView>(filled(value@, size as nat, cfg@)),
{
    Ok(
        PyTerm::new(
            Ty::Array(size, Box::new(value.ty)),
            term1(Op::Fill(default_field_sort(cfg), size), value.term),
        ),
    )
}

/// The array of the given elements, where `elem_sort` is the sort of the first
/// element's term.
pub fn array(elems: Vec<PyTerm>, elem_sort: Sort, cfg: &Cfg) -> (r: Result<PyTerm, Error>)
    ensures
        outcome(r) == array_value(pys_view(elems@), elem_sort@, cfg@),
{
    let ghost ts = pys_view(elems@);
    let n = elems.len();
    if n == 0 {
        return Err(Error::EmptyArray);
    }
    let mut i: usize = 1;
    while i < n
        invariant
            ts == pys_view(elems@),
            n == elems@.len(),
            1 <= i <= n,
            forall|j: int| 0 <= j < i ==> #[trigger] ts[j].ty == ts[0].ty,
        decreases n - i,
    {
        if *elems[i].type_() != *elems[0].type_() {
            assert(ts[i as int].ty != ts[0].ty);
            return Err(Error::InconsistentArray);
        }
        i += 1;
    }
    let ty: Ty = elems[0].ty.clone();
    let mut ir_terms: Vec<Term> = Vec::new();
    let mut k: usize = 0;
    while k < n
        invariant
            ts == pys_view(elems@),
            n == elems@.len(),
            k <= n,
            terms_view(ir_terms@) == value_terms(ts).take(k as int),
        decreases n - k,
    {
        let ghost before = terms_view(ir_terms@);
        ir_terms.push(elems[k].term.clone());
        assert(terms_view(ir_terms@) =~= before.push(ts[k as int].term));
        assert(terms_view(ir_terms@) =~= value_terms(ts).take(k + 1));
        k += 1;
    }
    assert(terms_view(ir_terms@) =~= value_terms(ts));
    Ok(PyTerm::new(Ty::Array(n, Box::new(ty)), ir_array(elem_sort, ir_terms, cfg)))
}

impl PyTerm {
    /// The array of the given elements, where `elem_sort` is the sort of the
    /// first element's term.
    pub fn new_array(v: Vec<PyTerm>, elem_sort: Sort, cfg: &Cfg) -> (r: Result<PyTerm, Error>)
        ensures
            outcome(r) == array_value(pys_view(v@), elem_sort@, cfg@),
    {
        array(v, elem_sort, cfg)
    }
}

/// Where a slice of `size` elements starts and ends.
pub open spec fn slice_bounds(start: Option<usize>, end: Option<usize>, size: nat) -> (int, int) {
    (
        match start {
            Some(s) => s as int,
            None => 0,
        },
        match end {
            Some(e) => e as int,
            None => size as int,
        },
    )
}

/// The size of an array type.
pub open spec fn array_size(ty: TyView) -> Option<nat> {
    match ty {
        TyView::Array(n, _) => Some(n),
        TyView::MutArray(n) => Some(n),
        _ => None,
    }
}

/// Whether a slice of an array lies inside it.
pub open spec fn slice_fits(ty: TyView, start: Option<usize>, end: Option<usize>) -> bool {
    match array_size(ty) {
        Some(n) => {
            let (s, e) = slice_bounds(start, end, n);
            s <= e <= n
        },
        None => true,
    }
}

/// The elements of an array from `start` up to `end`, where `sort` is the sort
/// of the first of them.
pub open spec fn sliced(
    arr: PyTermView,
    start: Option<usize>,
    end: Option<usize>,
    sort: SortView,
    p: int,
) -> Result<PyTermView, ErrorView> {
    match (array_size(arr.ty), unwrapped(arr, p)) {
        (Some(n), Ok(ts)) => {
            let (s, e) = slice_bounds(start, end, n);
            array_value(ts.subrange(s, e), sort, p)
        },
        _ => Err(ErrorView::Slice(arr.ty)),
    }
}

/// The elements of an array from `start` up to `end`, as an array, where
/// `elem_sort` is the sort of the first of them.
pub fn slice(
    arr: PyTerm,
    start: Option<usize>,
    end: Option<usize>,
    elem_sort: Sort,
    cfg: &Cfg,
) -> (r: Result<PyTerm, Error>)
    requires
        slice_fits(arr@.ty, start, end),
    ensures
        outcome(r) == sliced(arr@, start, end, elem_sort@, cfg@),
{
    let size: usize = match &arr.ty {
        Ty::Array(size, _) => *size,
        Ty::MutArray(size) => *size,
        a => {
            return Err(Error::Slice(a.clone()));
        },
    };
    let from: usize = match start {
        Some(s) => s,
        None => 0,
    };
    let to: usize = match end {
        Some(e) => e,
        None => size,
    };
    match arr.unwrap_array(cfg) {
        Ok(all) => {
            let ghost ts = pys_view(all@);
            let mut part: Vec<PyTerm> = Vec::new();
            let mut i: usize = from;
            assert(pys_view(part@) =~= ts.subrange(from as int, from as int));
            while i < to
                invariant
                    ts == pys_view(all@),
                    from <= i <= to <= all@.len(),
                    pys_view(part@) == ts.subrange(from as int, i as int),
                decreases to - i,
            {
                let ghost before = pys_view(part@);
                part.push(all[i].clone());
                assert(pys_view(part@) =~= before.push(ts[i as int]));
                assert(pys_view(part@) =~= ts.subrange(from as int, i + 1));
                i += 1;
            }
            array(part, elem_sort, cfg)
        },
        Err(e) => Err(e),
    }
}

/// A number as a field element: an unsigned integer converted, a field element
/// as it is.
pub open spec fn coerced(i: PyTermView, p: int) -> Result<TermView, ErrorView> {
    match i.ty {
        TyView::Uint(_) => Ok(node1(OpView::UbvToPf(p), i.term)),
        TyView::Field => Ok(i.term),
        _ => Err(ErrorView::Coerce(i.term)),
    }
}

fn coerce_to_field(i: PyTerm, cfg: &Cfg) -> (r: Result<Term, Error>)
    ensures
        match r {
            Ok(t) => coerced(i@, cfg@) == Ok::<TermView, ErrorView>(t@),
            Err(e) => coerced(i@, cfg@) == Err::<TermView, ErrorView>(e@),
        },
{
    match i.ty {
        Ty::Uint(_) => Ok(term1(Op::UbvToPf(default_field(cfg)), i.term)),
        Ty::Field => Ok(i.term),
        _ => Err(Error::Coerce(i.term)),
    }
}

/// The element of an array at an index, which is a number.
pub open spec fn selected(array: PyTermView, idx: PyTermView, p: int) -> Result<
    PyTermView,
    ErrorView,
> {
    match (array.ty, coerced(idx, p)) {
        (TyView::Array(_, ty), Ok(i)) => Ok(py(*ty, node2(OpView::Select, array.term, i))),
        (TyView::MutArray(_), Ok(i)) => Ok(
            py(TyView::Field, node2(OpView::Select, array.term, i)),
        ),
        _ => Err(ErrorView::Index(array.ty, idx.ty)),
    }
}

/// The element of an array at an index.
pub fn array_select(array: PyTerm, idx: PyTerm, cfg: &Cfg) -> (r: Result<PyTerm, Error>)
    ensures
        outcome(r) == selected(array@, idx@, cfg@),
{
    let idx_ty: Ty = idx.ty.clone();
    match (array.ty, coerce_to_field(idx, cfg)) {
        (Ty::Array(_, elem_ty), Ok(iterm)) => Ok(
            PyTerm::new(*elem_ty, term2(Op::Select, array.term, iterm)),
        ),
        (Ty::MutArray(_), Ok(iterm)) => Ok(
            PyTerm::new(Ty::Field, term2(Op::Select, array.term, iterm)),
        ),
        (ty, _) => Err(Error::Index(ty, idx_ty)),
    }
}

/// An array with a number written at an index where a condition holds.
pub open spec fn stored_if(
    array: PyTermView,
    idx: PyTermView,
    val: PyTermView,
    cond: TermView,
    p: int,
) -> Result<PyTermView, ErrorView> {
    if array_size(array.ty) is None {
        Err(ErrorView::StoreTarget(array.term))
    } else {
        match (coerced(idx, p), coerced(val, p)) {
            (Err(_), _) => Err(ErrorView::StoreIndex(idx.term)),
            (_, Err(_)) => Err(ErrorView::StoreValue(val.term)),
            (Ok(i), Ok(v)) => Ok(py(array.ty, node4(OpView::CStore, array.term, i, v, cond))),
        }
    }
}

/// An array with a number written at an index where a condition holds.
pub fn mut_array_store(
    array: PyTerm,
    idx: PyTerm,
    val: PyTerm,
    cond: Term,
    cfg: &Cfg,
) -> (r: Result<PyTerm, Error>)
    ensures
        outcome(r) == stored_if(array@, idx@, val@, cond@, cfg@),
        r matches Ok(t) ==> t@.ty == array@.ty,
{
    match &array.ty {
        Ty::MutArray(_) => {},
        Ty::Array(_, _) => {},
        _ => {
            return Err(Error::StoreTarget(array.term));
        },
    }
    let idx_term = idx.term.clone();
    let i = match coerce_to_field(idx, cfg) {
        Ok(i) => i,
        Err(_) => {
            return Err(Error::StoreIndex(idx_term));
        },
    };
    let val_term = val.term.clone();
    let v = match coerce_to_field(val, cfg) {
        Ok(v) => v,
        Err(_) => {
            return Err(Error::StoreValue(val_term));
        },
    };
    Ok(PyTerm::new(array.ty, term4(Op::CStore, array.term, i, v, cond)))
}

/// An array with a value written at an index, which is a number.
pub open spec fn stored(array: PyTermView, idx: PyTermView, val: PyTermView, p: int) -> Result<
    PyTermView,
    ErrorView,
> {
    match (array.ty, coerced(idx, p)) {
        (TyView::Array(_, _), Ok(i)) => Ok(
            py(array.ty, node3(OpView::Store, array.term, i, val.term)),
        ),
        _ => Err(ErrorView::Index(array.ty, idx.ty)),
    }
}

/// An array with a value written at an index.
pub fn array_store(array: PyTerm, idx: PyTerm, val: PyTerm, cfg: &Cfg) -> (r: Result<
    PyTerm,
    Error,
>)
    ensures
        outcome(r) == stored(array@, idx@, val@, cfg@),
        r matches Ok(t) ==> t@.ty == array@.ty,
{
    let idx_ty: Ty = idx.ty.clone();
    match (&array.ty, coerce_to_field(idx, cfg)) {
        (Ty::Array(_, _), Ok(iterm)) => Ok(
            PyTerm::new(array.ty, term3(Op::Store, array.term, iterm, val.term)),
        ),
        _ => Err(Error::Index(array.ty, idx_ty)),
    }
}

} // verus!
