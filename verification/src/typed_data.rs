//! Arrays, bits, classes and inputs are well typed where what they are made of
//! is.
use crate::arrays::{
    array_size, array_value, coerced, filled, selected, slice_bounds, slice_fits, sliced, stored,
    stored_if, value_terms,
};
use crate::bits::{bits_le, bits_of, field_bits, from_bits, joined_bits, to_bits, to_field};
use crate::classes::{field_selected, field_stored};
use crate::ir::{
    default_value, default_values, leaf, node, node1, pf_lit, BvBinPred, OpView, SortView, TermView,
};
use crate::names::{by_name, lemma_find_name, name_index, names_distinct};
use crate::pyterm::{
    class_slots, class_value, elem, field_tys, lemma_class_slots, py, unwrapped, PyTermView,
};
use crate::ty::{field_sorts, ty_sort, TyView};
use crate::typed::lemma_pf_lit_sort;
use crate::typing::{
    all_of, lemma_sort_of, lemma_sort_of1, lemma_sort_of2, lemma_sort_of3, lemma_sort_of4,
    lemma_sort_of_leaf, present, sort_of, typed_outcome, value_sort, value_sorts, well_typed,
    width_sum,
};
use vstd::arithmetic::power2::lemma_pow2_pos;
use vstd::prelude::*;

verus! {

/// An array of well-typed elements is well typed, where it is given the sort
/// of its first element.
pub proof fn law_array_is_typed(ts: Seq<PyTermView>, sort: SortView, p: int)
    requires
        forall|i: int| 0 <= i < ts.len() ==> well_typed(#[trigger] ts[i], p),
        ts.len() > 0 ==> sort_of(ts[0].term) == Some(sort),
    ensures
        typed_outcome(array_value(ts, sort, p), p),
{
    if array_value(ts, sort, p) is Ok {
        let vs = value_terms(ts);
        let ss = Seq::new(ts.len(), |i: int| sort);
        assert forall|i: int| 0 <= i < vs.len() implies sort_of(#[trigger] vs[i]) == Some(
            ss[i],
        ) by {
            assert(well_typed(ts[i], p));
            assert(well_typed(ts[0], p));
            assert(ts[i].ty == ts[0].ty);
        }
        lemma_sort_of(OpView::Array(SortView::Field(p), sort), vs, ss);
        assert(well_typed(ts[0], p));
    }
}

/// An array filled with a well-typed value is well typed.
pub proof fn law_fill_is_typed(value: PyTermView, size: nat, p: int)
    requires
        well_typed(value, p),
    ensures
        well_typed(filled(value, size, p), p),
{
    lemma_sort_of1(
        OpView::Fill(SortView::Field(p), size),
        value.term,
        ty_sort(value.ty, p),
    );
}

/// The element of an array has the sort of its values.
pub proof fn lemma_elem_sort(a: TermView, i: int, v: SortView, n: nat, p: int)
    requires
        p > 0,
        sort_of(a) == Some(SortView::Array(Box::new(SortView::Field(p)), Box::new(v), n)),
    ensures
        sort_of(elem(a, i, p)) == Some(v),
{
    lemma_pf_lit_sort(i, p);
    lemma_sort_of2(
        OpView::Select,
        a,
        pf_lit(i, p),
        SortView::Array(Box::new(SortView::Field(p)), Box::new(v), n),
        SortView::Field(p),
    );
}

/// The elements of a well-typed array are well typed.
pub proof fn law_elements_are_typed(a: PyTermView, p: int)
    requires
        p > 0,
        well_typed(a, p),
    ensures
        match unwrapped(a, p) {
            Ok(ts) => forall|i: int| 0 <= i < ts.len() ==> well_typed(#[trigger] ts[i], p),
            Err(_) => true,
        },
{
    match unwrapped(a, p) {
        Ok(ts) => {
            assert forall|i: int| 0 <= i < ts.len() implies well_typed(#[trigger] ts[i], p) by {
                lemma_elem_sort(a.term, i, ty_sort(ts[i].ty, p), ts.len(), p);
            }
        },
        Err(_) => {},
    }
}

/// A slice of a well-typed array is well typed, where it is given the sort of
/// its first element.
pub proof fn law_slice_is_typed(
    arr: PyTermView,
    start: Option<usize>,
    end: Option<usize>,
    sort: SortView,
    p: int,
)
    requires
        p > 0,
        well_typed(arr, p),
        slice_fits(arr.ty, start, end),
        array_size(arr.ty) matches Some(n) ==> {
            let (s, e) = slice_bounds(start, end, n);
            s < e ==> sort_of(elem(arr.term, s, p)) == Some(sort)
        },
    ensures
        typed_outcome(sliced(arr, start, end, sort, p), p),
{
    law_elements_are_typed(arr, p);
    match (array_size(arr.ty), unwrapped(arr, p)) {
        (Some(n), Ok(ts)) => {
            let (s, e) = slice_bounds(start, end, n);
            let part = ts.subrange(s, e);
            assert forall|i: int| 0 <= i < part.len() implies well_typed(
                #[trigger] part[i],
                p,
            ) by {
                assert(part[i] == ts[s + i]);
            }
            law_array_is_typed(part, sort, p);
        },
        _ => {},
    }
}

proof fn lemma_coerced_sort(i: PyTermView, p: int)
    requires
        well_typed(i, p),
    ensures
        coerced(i, p) matches Ok(t) ==> sort_of(t) == Some(SortView::Field(p)),
{
    match i.ty {
        TyView::Uint(w) => {
            lemma_sort_of1(OpView::UbvToPf(p), i.term, SortView::BitVector(w));
        },
        _ => {},
    }
}

/// An element read from a well-typed array at a well-typed index is well typed.
pub proof fn law_select_is_typed(array: PyTermView, idx: PyTermView, p: int)
    requires
        well_typed(array, p),
        well_typed(idx, p),
    ensures
        typed_outcome(selected(array, idx, p), p),
{
    lemma_coerced_sort(idx, p);
    match selected(array, idx, p) {
        Ok(_) => {
            lemma_sort_of2(
                OpView::Select,
                array.term,
                coerced(idx, p)->Ok_0,
                ty_sort(array.ty, p),
                SortView::Field(p),
            );
        },
        Err(_) => {},
    }
}

/// A well-typed array of field elements stays well typed when a well-typed
/// number is written into it where a condition holds.
pub proof fn law_store_if_is_typed(
    array: PyTermView,
    idx: PyTermView,
    val: PyTermView,
    cond: TermView,
    p: int,
)
    requires
        well_typed(array, p),
        well_typed(idx, p),
        well_typed(val, p),
        sort_of(cond) == Some(SortView::Bool),
        array.ty matches TyView::Array(_, t) ==> *t == TyView::Field,
    ensures
        typed_outcome(stored_if(array, idx, val, cond, p), p),
{
    reveal_with_fuel(ty_sort, 2);
    lemma_coerced_sort(idx, p);
    lemma_coerced_sort(val, p);
    match stored_if(array, idx, val, cond, p) {
        Ok(_) => {
            lemma_sort_of4(
                OpView::CStore,
                array.term,
                coerced(idx, p)->Ok_0,
                coerced(val, p)->Ok_0,
                cond,
                ty_sort(array.ty, p),
                SortView::Field(p),
                SortView::Field(p),
                SortView::Bool,
            );
        },
        Err(_) => {},
    }
}

/// A well-typed array stays well typed when a well-typed value of the type of
/// its elements is written into it.
pub proof fn law_store_is_typed(array: PyTermView, idx: PyTermView, val: PyTermView, p: int)
    requires
        well_typed(array, p),
        well_typed(idx, p),
        well_typed(val, p),
        array.ty matches TyView::Array(_, t) ==> *t == val.ty,
    ensures
        typed_outcome(stored(array, idx, val, p), p),
{
    lemma_coerced_sort(idx, p);
    match stored(array, idx, val, p) {
        Ok(_) => {
            lemma_sort_of3(
                OpView::Store,
                array.term,
                coerced(idx, p)->Ok_0,
                val.term,
                ty_sort(array.ty, p),
                SortView::Field(p),
                ty_sort(val.ty, p),
            );
        },
        Err(_) => {},
    }
}

proof fn lemma_width_of_bits(ss: Seq<SortView>)
    requires
        all_of(ss, SortView::BitVector(1)),
    ensures
        width_sum(ss) == Some(ss.len()),
    decreases ss.len(),
{
    if ss.len() > 0 {
        let init = ss.drop_last();
        assert forall|i: int| 0 <= i < init.len() implies #[trigger] init[i]
            == SortView::BitVector(1) by {
            assert(init[i] == ss[i]);
        }
        lemma_width_of_bits(init);
    }
}

proof fn lemma_joined_sort(barr: TermView, n: nat, p: int)
    requires
        p > 0,
        sort_of(barr) == Some(
            SortView::Array(Box::new(SortView::Field(p)), Box::new(SortView::Bool), n),
        ),
    ensures
        sort_of(joined_bits(barr, n, p)) == Some(SortView::BitVector(n)),
{
    let ts = joined_bits(barr, n, p).cs;
    let ss = Seq::new(n, |i: int| SortView::BitVector(1));
    assert forall|i: int| 0 <= i < ts.len() implies sort_of(#[trigger] ts[i]) == Some(ss[i]) by {
        lemma_elem_sort(barr, i, SortView::Bool, n, p);
        lemma_sort_of1(OpView::BoolToBv, elem(barr, i, p), SortView::Bool);
    }
    lemma_sort_of(OpView::BvConcat, ts, ss);
    lemma_width_of_bits(ss);
}

/// Conversions between well-typed numbers and bits are well typed.
pub proof fn law_conversions_are_typed(u: PyTermView, n: nat, p: int)
    requires
        p > 0,
        well_typed(u, p),
    ensures
        typed_outcome(to_field(u, p), p),
        typed_outcome(to_bits(u, p), p),
        typed_outcome(from_bits(u, p), p),
        typed_outcome(field_bits(u, n, p), p),
{
    reveal_with_fuel(ty_sort, 2);
    match u.ty {
        TyView::Uint(w) => {
            lemma_sort_of1(OpView::UbvToPf(p), u.term, SortView::BitVector(w));
            lemma_bits_sort(u.term, w, p);
        },
        TyView::Array(m, t) => {
            if *t == TyView::Bool {
                lemma_joined_sort(u.term, m, p);
            }
        },
        TyView::Field => {
            lemma_sort_of1(OpView::PfToBv(n), u.term, SortView::Field(p));
            lemma_bits_sort(node1(OpView::PfToBv(n), u.term), n, p);
        },
        _ => {},
    }
}

proof fn lemma_bits_sort(u: TermView, n: nat, p: int)
    requires
        sort_of(u) == Some(SortView::BitVector(n)),
    ensures
        sort_of(node(OpView::Array(SortView::Field(p), SortView::Bool), bits_of(u, n))) == Some(
            SortView::Array(Box::new(SortView::Field(p)), Box::new(SortView::Bool), n),
        ),
{
    let ts = bits_of(u, n);
    let ss = Seq::new(n, |i: int| SortView::Bool);
    assert forall|i: int| 0 <= i < ts.len() implies sort_of(#[trigger] ts[i]) == Some(ss[i]) by {
        lemma_sort_of1(OpView::BvBit((n - 1 - i) as nat), u, SortView::BitVector(n));
    }
    lemma_sort_of(OpView::Array(SortView::Field(p), SortView::Bool), ts, ss);
}

/// Comparisons of well-typed arrays of bits are well typed.
pub proof fn law_bits_le_is_typed(a: PyTermView, b: PyTermView, n: nat, p: int)
    requires
        p > 0,
        well_typed(a, p),
        well_typed(b, p),
    ensures
        typed_outcome(bits_le(a, b, n, p), p),
{
    reveal_with_fuel(ty_sort, 2);
    if bits_le(a, b, n, p) is Ok {
        lemma_joined_sort(a.term, n, p);
        lemma_joined_sort(b.term, n, p);
        lemma_sort_of2(
            OpView::BvBinPred(BvBinPred::Ule),
            joined_bits(a.term, n, p),
            joined_bits(b.term, n, p),
            SortView::BitVector(n),
            SortView::BitVector(n),
        );
    }
}

/// A class value of well-typed fields with different names is well typed.
pub proof fn law_class_is_typed(name: Seq<char>, fs: Seq<(Seq<char>, PyTermView)>, p: int)
    requires
        names_distinct(fs),
        forall|i: int| 0 <= i < fs.len() ==> well_typed((#[trigger] fs[i]).1, p),
    ensures
        well_typed(class_value(name, fs), p),
{
    lemma_class_slots(fs);
    let order = by_name(field_tys(fs));
    let ts = class_slots(fs).map_values(|j: int| fs[j].1.term);
    let ss = field_sorts(order, p);
    assert forall|k: int| 0 <= k < ts.len() implies sort_of(#[trigger] ts[k]) == Some(ss[k]) by {
        let j = class_slots(fs)[k];
        assert(well_typed(fs[j].1, p));
    }
    lemma_sort_of(OpView::Tuple, ts, ss);
}

/// A field read from a well-typed class value is well typed.
pub proof fn law_field_select_is_typed(class_: PyTermView, field: Seq<char>, p: int)
    requires
        well_typed(class_, p),
    ensures
        typed_outcome(field_selected(class_, field), p),
{
    match class_.ty {
        TyView::DataClass(_, fs) => {
            lemma_find_name(fs, field, 0);
            match name_index(fs, field) {
                Some(i) => {
                    lemma_sort_of1(
                        OpView::Field(i as nat),
                        class_.term,
                        SortView::Tuple(field_sorts(fs, p)),
                    );
                },
                None => {},
            }
        },
        _ => {},
    }
}

/// A well-typed class value stays well typed when a field of it is replaced by
/// a well-typed value.
pub proof fn law_field_store_is_typed(
    class_: PyTermView,
    field: Seq<char>,
    val: PyTermView,
    p: int,
)
    requires
        well_typed(class_, p),
        well_typed(val, p),
    ensures
        typed_outcome(field_stored(class_, field, val), p),
{
    match class_.ty {
        TyView::DataClass(_, fs) => {
            lemma_find_name(fs, field, 0);
            match name_index(fs, field) {
                Some(i) => {
                    lemma_sort_of2(
                        OpView::Update(i as nat),
                        class_.term,
                        val.term,
                        SortView::Tuple(field_sorts(fs, p)),
                        ty_sort(val.ty, p),
                    );
                },
                None => {},
            }
        },
        _ => {},
    }
}

/// The constant that a type starts from has the sort of the type.
pub proof fn lemma_default_sort(ty: TyView, p: int)
    requires
        p > 0,
    ensures
        value_sort(default_value(ty_sort(ty, p))) == Some(ty_sort(ty, p)),
    decreases ty,
{
    let s = ty_sort(ty, p);
    match ty {
        TyView::Uint(w) => {
            lemma_pow2_pos(w);
        },
        TyView::DataClass(_, fs) => {
            let ss = field_sorts(fs, p);
            let vs = default_values(ss);
            let all = value_sorts(vs);
            assert forall|i: int| 0 <= i < all.len() implies #[trigger] all[i] == Some(ss[i]) by {
                lemma_default_sort(fs[i].1, p);
            }
            assert(present(all)->0 =~= ss);
        },
        TyView::Array(n, t) => {
            lemma_default_sort(*t, p);
            lemma_default_array(ty_sort(*t, p), n, p);
        },
        TyView::MutArray(n) => {
            assert(value_sort(default_value(SortView::Field(p))) == Some(SortView::Field(p)));
            lemma_default_array(SortView::Field(p), n, p);
        },
        _ => {},
    }
}

proof fn lemma_default_array(v: SortView, n: nat, p: int)
    requires
        value_sort(default_value(v)) == Some(v),
    ensures
        ({
            let s = SortView::Array(Box::new(SortView::Field(p)), Box::new(v), n);
            value_sort(default_value(s)) == Some(s)
        }),
{
    let vs = Seq::new(n, |i: int| default_value(v));
    let all = value_sorts(vs);
    assert forall|i: int| 0 <= i < all.len() implies #[trigger] all[i] == Some(v) by {}
    assert(all_of(present(all)->0, v));
}

/// The value that a type starts from is well typed.
pub proof fn law_default_is_typed(ty: TyView, p: int)
    requires
        p > 0,
    ensures
        well_typed(py(ty, leaf(OpView::Const(default_value(ty_sort(ty, p))))), p),
{
    lemma_default_sort(ty, p);
    lemma_sort_of_leaf(OpView::Const(default_value(ty_sort(ty, p))));
}

} // verus!
