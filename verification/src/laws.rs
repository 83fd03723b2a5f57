//! What holds between operations whatever terms mean.
use crate::arrays::{array_size, array_value, slice_bounds, slice_fits, sliced};
use crate::error::ErrorView;
use crate::field::FieldElem;
use crate::integer::{bit_length, lemma_bit_length_bounds};
use crate::ir::{
    leaf, pf_lit, BoolNaryOp, BvBinOp, BvBinPred, BvNaryOp, BvUnOp, OpView, PfNaryOp, PfUnOp,
    SortView, TermView, ValueView,
};
use crate::keys::keyed;
use crate::meaning_inputs::{all_sorted, fields_sorted};
use crate::names::{
    by_name, law_by_name_keeps_ordered, law_by_name_order_free, law_by_name_stable, law_last_named,
    law_slots, lemma_by_name, lemma_by_name_contains, name_lt, named, names_distinct, names_ordered,
};
use crate::ops::{
    add_value, and_value, bitand_value, bitor_value, bitxor_value, choice, const_val_value,
    div_value, eq_value, mul_value, neg_value, neq_value, not_value, or_value, rem_value, sub_value,
    uge_value, ugt_value, ule_value, ult_value,
};
use crate::pretty::{elems_text, fields_text, pretty_text, value_text};
use crate::pyterm::{
    class_slots, class_value, component_scalars, field_tys, lemma_class_slots, py, scalars,
    unwrapped, PyTermView,
};
use crate::python::{declared_fields, declared_ty};
use crate::ty::{field_sorts, ty_sort, TyView};
use crate::typing::{all_of, present, value_sort, value_sorts};
use vstd::arithmetic::power2::{lemma_pow2_strictly_increases, pow2};
use vstd::prelude::*;

verus! {

/// Operators take values of one type: arithmetic and comparisons take numbers,
/// bitwise operators unsigned integers, logical ones Booleans.
pub proof fn law_operand_types(a: PyTermView, b: PyTermView, p: int)
    ensures
        ({
            let numbers = a.ty == b.ty && (a.ty is Uint || a.ty is Field);
            &&& add_value(a, b) is Ok <==> numbers
            &&& sub_value(a, b) is Ok <==> numbers
            &&& mul_value(a, b) is Ok <==> numbers
            &&& div_value(a, b) is Ok <==> numbers
            &&& rem_value(a, b, p) is Ok <==> numbers
            &&& ult_value(a, b, p) is Ok <==> numbers
            &&& ule_value(a, b, p) is Ok <==> numbers
            &&& ugt_value(a, b, p) is Ok <==> numbers
            &&& uge_value(a, b, p) is Ok <==> numbers
        }),
        ({
            let uints = a.ty == b.ty && a.ty is Uint;
            &&& bitand_value(a, b) is Ok <==> uints
            &&& bitor_value(a, b) is Ok <==> uints
            &&& bitxor_value(a, b) is Ok <==> uints
        }),
        ({
            let bools = a.ty is Bool && b.ty is Bool;
            &&& and_value(a, b) is Ok <==> bools
            &&& or_value(a, b) is Ok <==> bools
        }),
        eq_value(a, b) is Ok <==> a.ty == b.ty,
        neq_value(a, b) is Ok <==> a.ty == b.ty,
        neg_value(a) is Ok <==> a.ty is Uint || a.ty is Field,
        not_value(a) is Ok <==> a.ty is Uint || a.ty is Bool,
{
}

/// An operator gives a value of the type of its operands, a comparison a
/// Boolean.
pub proof fn law_result_types(a: PyTermView, b: PyTermView, p: int)
    ensures
        add_value(a, b) matches Ok(t) ==> t.ty == a.ty,
        sub_value(a, b) matches Ok(t) ==> t.ty == a.ty,
        mul_value(a, b) matches Ok(t) ==> t.ty == a.ty,
        div_value(a, b) matches Ok(t) ==> t.ty == a.ty,
        rem_value(a, b, p) matches Ok(t) ==> t.ty == a.ty,
        bitand_value(a, b) matches Ok(t) ==> t.ty == a.ty,
        bitor_value(a, b) matches Ok(t) ==> t.ty == a.ty,
        bitxor_value(a, b) matches Ok(t) ==> t.ty == a.ty,
        and_value(a, b) matches Ok(t) ==> t.ty == a.ty,
        or_value(a, b) matches Ok(t) ==> t.ty == a.ty,
        neg_value(a) matches Ok(t) ==> t.ty == a.ty,
        not_value(a) matches Ok(t) ==> t.ty == a.ty,
        eq_value(a, b) matches Ok(t) ==> t.ty == TyView::Bool,
        neq_value(a, b) matches Ok(t) ==> t.ty == TyView::Bool,
        ult_value(a, b, p) matches Ok(t) ==> t.ty == TyView::Bool,
        ule_value(a, b, p) matches Ok(t) ==> t.ty == TyView::Bool,
        ugt_value(a, b, p) matches Ok(t) ==> t.ty == TyView::Bool,
        uge_value(a, b, p) matches Ok(t) ==> t.ty == TyView::Bool,
{
}

/// That two values differ is the opposite of that they are equal, and is
/// refused where that is.
pub proof fn law_neq_is_not_eq(a: PyTermView, b: PyTermView)
    ensures
        neq_value(a, b) == match eq_value(a, b) {
            Ok(t) => not_value(t),
            Err(e) => Err(e),
        },
{
}

/// Numbers that are congruent modulo the modulus stand for one field element.
pub proof fn law_field_literals_congruent(i: int, j: int, p: int)
    requires
        p > 0,
        i % p == j % p,
    ensures
        pf_lit(i, p) == pf_lit(j, p),
{
}

/// A constant made of a constant is the same.
pub proof fn law_const_val_twice(a: PyTermView, folded: TermView)
    ensures
        const_val_value(a, folded) matches Ok(c) ==> const_val_value(c, c.term) == Ok::<
            PyTermView,
            ErrorView,
        >(c),
{
}

/// The elements of an array make an array of its size and element type again.
pub proof fn law_array_of_elements(a: PyTermView, sort: SortView, p: int)
    requires
        array_size(a.ty) matches Some(n) && n > 0,
    ensures
        unwrapped(a, p) is Ok,
        array_value(unwrapped(a, p)->Ok_0, sort, p) is Ok,
        array_value(unwrapped(a, p)->Ok_0, sort, p)->Ok_0.ty == declared_ty_top(a.ty),
{
}

/// An array type with a mutable array at its top made an array of field
/// elements.
pub open spec fn declared_ty_top(ty: TyView) -> TyView {
    match ty {
        TyView::MutArray(n) => TyView::Array(n, Box::new(TyView::Field)),
        _ => ty,
    }
}

/// A slice is as long as its bounds are apart; an empty one is refused.
pub proof fn law_slice_length(
    arr: PyTermView,
    start: Option<usize>,
    end: Option<usize>,
    sort: SortView,
    p: int,
)
    requires
        slice_fits(arr.ty, start, end),
        array_size(arr.ty) is Some,
    ensures
        ({
            let (s, e) = slice_bounds(start, end, array_size(arr.ty)->0);
            if s == e {
                sliced(arr, start, end, sort, p) == Err::<PyTermView, ErrorView>(
                    ErrorView::EmptyArray,
                )
            } else {
                sliced(arr, start, end, sort, p) is Ok && array_size(
                    sliced(arr, start, end, sort, p)->Ok_0.ty,
                ) == Some((e - s) as nat)
            }
        }),
{
    let (s, e) = slice_bounds(start, end, array_size(arr.ty)->0);
    let ts = unwrapped(arr, p)->Ok_0;
    let part = ts.subrange(s, e);
    assert forall|i: int| 0 <= i < part.len() implies #[trigger] part[i].ty == part[0].ty by {
        assert(part[i] == ts[s + i]);
        assert(part[0] == ts[s]);
    }
}

/// Whether there is no mutable array in a type.
pub open spec fn no_mut_array(ty: TyView) -> bool
    decreases ty,
{
    match ty {
        TyView::Array(_, t) => no_mut_array(*t),
        TyView::MutArray(_) => false,
        TyView::DataClass(_, fs) => all_no_mut_array(fs),
        _ => true,
    }
}

pub open spec fn all_no_mut_array(fs: Seq<(Seq<char>, TyView)>) -> bool
    decreases fs,
{
    forall|i: int| 0 <= i < fs.len() ==> no_mut_array((#[trigger] fs[i]).1)
}

/// An input has the type it is declared with, where there is no mutable array
/// in it.
pub proof fn law_declared_ty(ty: TyView)
    requires
        no_mut_array(ty),
        fields_sorted(ty),
    ensures
        declared_ty(ty) == ty,
    decreases ty,
{
    match ty {
        TyView::Array(_, t) => {
            law_declared_ty(*t);
        },
        TyView::DataClass(_, fs) => {
            let ds = declared_fields(fs);
            reveal_with_fuel(no_mut_array, 2);
            reveal_with_fuel(fields_sorted, 2);
            assert(all_no_mut_array(fs) && all_sorted(fs));
            assert forall|i: int| 0 <= i < fs.len() implies #[trigger] ds[i] == fs[i] by {
                assert(no_mut_array(fs[i].1));
                assert(fields_sorted(fs[i].1));
                law_declared_ty(fs[i].1);
            }
            assert(ds =~= fs);
            law_by_name_keeps_ordered(fs);
        },
        _ => {},
    }
}

/// The order that the fields of a class value are given in does not matter,
/// where their names are different.
pub proof fn law_class_order_free(
    name: Seq<char>,
    fs: Seq<(Seq<char>, PyTermView)>,
    gs: Seq<(Seq<char>, PyTermView)>,
)
    requires
        names_distinct(fs),
        names_distinct(gs),
        forall|x: (Seq<char>, PyTermView)| #[trigger] fs.contains(x) <==> gs.contains(x),
    ensures
        class_value(name, fs) == class_value(name, gs),
{
    let a = field_tys(fs);
    let b = field_tys(gs);
    lemma_class_slots(fs);
    lemma_class_slots(gs);
    assert forall|i: int, j: int| 0 <= i < j < a.len() implies #[trigger] a[i].0
        != #[trigger] a[j].0 by {
        assert(fs[i].0 != fs[j].0);
    }
    assert forall|i: int, j: int| 0 <= i < j < b.len() implies #[trigger] b[i].0
        != #[trigger] b[j].0 by {
        assert(gs[i].0 != gs[j].0);
    }
    assert forall|x: (Seq<char>, TyView)| #[trigger] a.contains(x) <==> b.contains(x) by {
        if a.contains(x) {
            let i = choose|i: int| 0 <= i < a.len() && a[i] == x;
            assert(fs.contains(fs[i]));
            assert(gs.contains(fs[i]));
            let j = choose|j: int| 0 <= j < gs.len() && gs[j] == fs[i];
            assert(b[j] == x);
        }
        if b.contains(x) {
            let j = choose|j: int| 0 <= j < b.len() && b[j] == x;
            assert(gs.contains(gs[j]));
            assert(fs.contains(gs[j]));
            let i = choose|i: int| 0 <= i < fs.len() && fs[i] == gs[j];
            assert(a[i] == x);
        }
    }
    law_by_name_order_free(a, b);
    let ts = class_slots(fs).map_values(|j: int| fs[j].1.term);
    let us = class_slots(gs).map_values(|j: int| gs[j].1.term);
    assert forall|k: int| 0 <= k < ts.len() implies #[trigger] ts[k] == us[k] by {
        let i = class_slots(fs)[k];
        let j = class_slots(gs)[k];
        assert(fs.contains(fs[i]));
        assert(gs.contains(fs[i]));
        let l = choose|l: int| 0 <= l < gs.len() && gs[l] == fs[i];
        if l < j {
            assert(gs[l].0 != gs[j].0);
        } else if j < l {
            assert(gs[j].0 != gs[l].0);
        }
    }
    assert(ts =~= us);
}

/// Whether constants of a type have a text: unsigned integers have the width
/// of a machine integer, and there is no mutable array.
pub open spec fn printable(ty: TyView) -> bool
    decreases ty,
{
    match ty {
        TyView::Uint(w) => w == 8 || w == 16 || w == 32 || w == 64,
        TyView::Array(_, t) => printable(*t),
        TyView::MutArray(_) => false,
        TyView::DataClass(_, fs) => all_printable(fs),
        _ => true,
    }
}

pub open spec fn all_printable(fs: Seq<(Seq<char>, TyView)>) -> bool
    decreases fs,
{
    forall|i: int| 0 <= i < fs.len() ==> printable((#[trigger] fs[i]).1)
}

/// A well-typed constant of a printable type is shown to its end.
pub proof fn law_pretty_succeeds(ty: TyView, v: ValueView, p: int)
    requires
        printable(ty),
        value_sort(v) == Some(ty_sort(ty, p)),
    ensures
        pretty_text(py(ty, leaf(OpView::Const(v)))).1 is Done,
{
    lemma_value_text_done(ty, v, p);
}

proof fn lemma_value_text_done(ty: TyView, v: ValueView, p: int)
    requires
        printable(ty),
        value_sort(v) == Some(ty_sort(ty, p)),
    ensures
        value_text(ty, v).1 is Done,
    decreases v, 0nat,
{
    match v {
        ValueView::Tuple(vs) => {
            match ty {
                TyView::DataClass(_, fs) => {
                    let ss = present(value_sorts(vs))->0;
                    assert(ss == field_sorts(fs, p));
                    assert(vs.len() == fs.len());
                    lemma_fields_text_done(fs, vs, fs.len(), p);
                },
                _ => {},
            }
        },
        ValueView::Array(k, _, vs) => {
            match ty {
                TyView::Array(_, t) => {
                    lemma_elems_text_done(*t, vs, keyed(k, vs.len()), p);
                },
                _ => {},
            }
        },
        _ => {},
    }
}

proof fn lemma_fields_text_done(
    fs: Seq<(Seq<char>, TyView)>,
    vs: Seq<ValueView>,
    n: nat,
    p: int,
)
    requires
        n <= vs.len(),
        vs.len() == fs.len(),
        all_printable(fs),
        present(value_sorts(vs)) == Some(field_sorts(fs, p)),
    ensures
        fields_text(fs, vs, n).1 is Done,
    decreases vs, n,
{
    if n > 0 {
        lemma_fields_text_done(fs, vs, (n - 1) as nat, p);
        assert(printable(fs[n - 1].1));
        let all = value_sorts(vs);
        assert(all[n - 1] is Some);
        assert(present(all)->0[n - 1] == field_sorts(fs, p)[n - 1]);
        assert(value_sort(vs[n - 1]) == Some(ty_sort(fs[n - 1].1, p)));
        lemma_value_text_done(fs[n - 1].1, vs[n - 1], p);
    }
}

proof fn lemma_elems_text_done(ty: TyView, vs: Seq<ValueView>, n: nat, p: int)
    requires
        n <= vs.len(),
        printable(ty),
        present(value_sorts(vs)) is Some,
        all_of(present(value_sorts(vs))->0, ty_sort(ty, p)),
    ensures
        elems_text(ty, vs, n).1 is Done,
    decreases vs, n,
{
    if n > 0 {
        lemma_elems_text_done(ty, vs, (n - 1) as nat, p);
        let all = value_sorts(vs);
        assert(all[n - 1] is Some);
        assert(present(all)->0[n - 1] == ty_sort(ty, p));
        lemma_value_text_done(ty, vs[n - 1], p);
    }
}

/// A class value has the name it is given. Its type has the fields in the order
/// of their names, those with one name in the order they are given in. Its
/// components are, in strict order of the names, the last value given for each.
pub proof fn law_class_parts(name: Seq<char>, fs: Seq<(Seq<char>, PyTermView)>, key: Seq<char>)
    ensures
        ({
            let c = class_value(name, fs);
            let gs = c.ty->DataClass_1;
            let all = class_slots(fs);
            &&& c.ty is DataClass
            &&& c.ty->DataClass_0 == name
            &&& gs.len() == fs.len()
            &&& names_ordered(gs)
            &&& named(gs, key) == named(field_tys(fs), key)
            &&& c.term.op == OpView::Tuple
            &&& c.term.cs.len() == all.len()
            &&& forall|k: int|
                0 <= k < all.len() ==> 0 <= #[trigger] all[k] < fs.len() && c.term.cs[k]
                    == fs[all[k]].1.term && forall|j: int|
                    all[k] < j < fs.len() ==> (#[trigger] fs[j]).0 != fs[all[k]].0
            &&& forall|k: int, l: int|
                0 <= k < l < all.len() ==> name_lt(
                    fs[#[trigger] all[k]].0,
                    fs[#[trigger] all[l]].0,
                )
            &&& forall|j: int|
                0 <= j < fs.len() ==> exists|k: int|
                    0 <= k < all.len() && fs[#[trigger] all[k]].0 == (#[trigger] fs[j]).0
        }),
        forall|i: int|
            0 <= i < fs.len() ==> #[trigger] field_tys(fs)[i] == (fs[i].0, fs[i].1.ty),
{
    let tys = field_tys(fs);
    let order = by_name(tys);
    let all = class_slots(fs);
    lemma_by_name(tys);
    law_by_name_stable(tys, key);
    law_slots(order, fs, fs.len());
    assert forall|k: int| 0 <= k < all.len() implies forall|j: int|
        #[trigger] all[k] < j < fs.len() ==> (#[trigger] fs[j]).0 != fs[all[k]].0 by {
        law_last_named(fs, fs[all[k]].0, fs.len());
    }
    assert forall|j: int| 0 <= j < fs.len() implies exists|k: int|
        0 <= k < all.len() && fs[#[trigger] all[k]].0 == (#[trigger] fs[j]).0 by {
        lemma_by_name_contains(tys, tys[j]);
        assert(tys.contains(tys[j]));
        let i = choose|i: int| 0 <= i < order.len() && order[i] == tys[j];
        assert(order[i].0 == fs[j].0);
    }
}

/// The scalars inside an array of one more element are those of the shorter
/// one and then those of the element; those inside a tuple are those of its
/// components one after another; a scalar is itself.
pub proof fn law_scalars_of_parts(
    t: TermView,
    k: SortView,
    v: SortView,
    n: nat,
    ss: Seq<SortView>,
    p: int,
)
    ensures
        v is Bool || v is BitVector || v is Field ==> scalars(t, v, p) =~= seq![t],
        scalars(t, SortView::Array(Box::new(k), Box::new(v), 0), p).len() == 0,
        scalars(t, SortView::Array(Box::new(k), Box::new(v), n + 1), p) == scalars(
            t,
            SortView::Array(Box::new(k), Box::new(v), n),
            p,
        ) + scalars(
            TermView {
                op: OpView::Select,
                cs: seq![
                    t,
                    TermView {
                        op: OpView::Const(
                            ValueView::Field(FieldElem { value: n as int % p, modulus: p }),
                        ),
                        cs: Seq::empty(),
                    },
                ],
            },
            v,
            p,
        ),
        scalars(t, SortView::Tuple(Seq::empty()), p).len() == 0,
        scalars(t, SortView::Tuple(ss.push(v)), p) == scalars(t, SortView::Tuple(ss), p)
            + scalars(TermView { op: OpView::Field(ss.len()), cs: seq![t] }, v, p),
{
    lemma_component_prefix(t, ss, v, ss.len(), p);
    let all = ss.push(v);
    assert(all[all.len() - 1] == v);
}

proof fn lemma_component_prefix(t: TermView, ss: Seq<SortView>, v: SortView, n: nat, p: int)
    requires
        n <= ss.len(),
    ensures
        component_scalars(t, ss.push(v), n, p) == component_scalars(t, ss, n, p),
    decreases n,
{
    if n > 0 {
        lemma_component_prefix(t, ss, v, (n - 1) as nat, p);
        assert(ss.push(v)[n - 1] == ss[n - 1]);
    }
}

/// Whether an operation gives an operator on two terms.
pub open spec fn gives_node2(
    r: Result<PyTermView, ErrorView>,
    op: OpView,
    a: TermView,
    b: TermView,
) -> bool {
    r is Ok ==> r->Ok_0.term.op == op && r->Ok_0.term.cs =~= seq![a, b]
}

/// Whether a term is an operator on one term.
pub open spec fn is_node1(t: TermView, op: OpView, a: TermView) -> bool {
    t.op == op && t.cs =~= seq![a]
}

/// The operators on unsigned integers and Booleans are single operators on
/// their operands, in order.
pub proof fn law_uint_terms(a: PyTermView, b: PyTermView, p: int)
    requires
        a.ty is Uint || a.ty is Bool,
    ensures
        gives_node2(add_value(a, b), OpView::BvNaryOp(BvNaryOp::Add), a.term, b.term),
        gives_node2(sub_value(a, b), OpView::BvBinOp(BvBinOp::Sub), a.term, b.term),
        gives_node2(mul_value(a, b), OpView::BvNaryOp(BvNaryOp::Mul), a.term, b.term),
        gives_node2(div_value(a, b), OpView::BvBinOp(BvBinOp::Udiv), a.term, b.term),
        gives_node2(rem_value(a, b, p), OpView::BvBinOp(BvBinOp::Urem), a.term, b.term),
        gives_node2(bitand_value(a, b), OpView::BvNaryOp(BvNaryOp::And), a.term, b.term),
        gives_node2(bitor_value(a, b), OpView::BvNaryOp(BvNaryOp::Or), a.term, b.term),
        gives_node2(bitxor_value(a, b), OpView::BvNaryOp(BvNaryOp::Xor), a.term, b.term),
        gives_node2(or_value(a, b), OpView::BoolNaryOp(BoolNaryOp::Or), a.term, b.term),
        gives_node2(and_value(a, b), OpView::BoolNaryOp(BoolNaryOp::And), a.term, b.term),
        gives_node2(ult_value(a, b, p), OpView::BvBinPred(BvBinPred::Ult), a.term, b.term),
        gives_node2(ule_value(a, b, p), OpView::BvBinPred(BvBinPred::Ule), a.term, b.term),
        gives_node2(ugt_value(a, b, p), OpView::BvBinPred(BvBinPred::Ugt), a.term, b.term),
        gives_node2(uge_value(a, b, p), OpView::BvBinPred(BvBinPred::Uge), a.term, b.term),
        neg_value(a) matches Ok(t) ==> is_node1(t.term, OpView::BvUnOp(BvUnOp::Neg), a.term),
        a.ty is Uint ==> is_node1(
            not_value(a)->Ok_0.term,
            OpView::BvUnOp(BvUnOp::Not),
            a.term,
        ),
        a.ty is Bool ==> is_node1(not_value(a)->Ok_0.term, OpView::Not, a.term),
{
}

/// The operators on field elements: a difference is a sum with the negative, a
/// quotient a product with the reciprocal, and comparisons and remainders go
/// through the bits of the modulus.
pub proof fn law_field_terms(a: PyTermView, b: PyTermView, len: nat, p: int)
    requires
        a.ty == TyView::Field,
        b.ty == TyView::Field,
        p > 0,
        len > 0,
        pow2((len - 1) as nat) <= p < pow2(len),
    ensures
        gives_node2(add_value(a, b), OpView::PfNaryOp(PfNaryOp::Add), a.term, b.term),
        gives_node2(mul_value(a, b), OpView::PfNaryOp(PfNaryOp::Mul), a.term, b.term),
        ({
            let y = sub_value(a, b)->Ok_0.term.cs[1];
            &&& gives_node2(sub_value(a, b), OpView::PfNaryOp(PfNaryOp::Add), a.term, y)
            &&& is_node1(y, OpView::PfUnOp(PfUnOp::Neg), b.term)
        }),
        ({
            let y = div_value(a, b)->Ok_0.term.cs[1];
            &&& gives_node2(div_value(a, b), OpView::PfNaryOp(PfNaryOp::Mul), a.term, y)
            &&& is_node1(y, OpView::PfUnOp(PfUnOp::Recip), b.term)
        }),
        ({
            let r = rem_value(a, b, p)->Ok_0.term;
            let q = r.cs[0];
            &&& is_node1(r, OpView::UbvToPf(p), q)
            &&& on_bits(q, OpView::BvBinOp(BvBinOp::Urem), a.term, b.term, len)
        }),
        on_bits(
            ult_value(a, b, p)->Ok_0.term,
            OpView::BvBinPred(BvBinPred::Ult),
            a.term,
            b.term,
            len,
        ),
        on_bits(
            ule_value(a, b, p)->Ok_0.term,
            OpView::BvBinPred(BvBinPred::Ule),
            a.term,
            b.term,
            len,
        ),
        on_bits(
            ugt_value(a, b, p)->Ok_0.term,
            OpView::BvBinPred(BvBinPred::Ugt),
            a.term,
            b.term,
            len,
        ),
        on_bits(
            uge_value(a, b, p)->Ok_0.term,
            OpView::BvBinPred(BvBinPred::Uge),
            a.term,
            b.term,
            len,
        ),
        neg_value(a) matches Ok(t) && is_node1(t.term, OpView::PfUnOp(PfUnOp::Neg), a.term),
{
    lemma_bit_length_bounds(p as nat);
    let w = bit_length(p as nat);
    if w < len {
        if w < len - 1 {
            lemma_pow2_strictly_increases(w, (len - 1) as nat);
        }
    } else if len < w {
        if len < w - 1 {
            lemma_pow2_strictly_increases(len, (w - 1) as nat);
        }
    }
}

/// Whether a term is an operator on the `len` bits of two field elements.
pub open spec fn on_bits(t: TermView, op: OpView, a: TermView, b: TermView, len: nat) -> bool {
    &&& t.op == op
    &&& t.cs.len() == 2
    &&& is_node1(t.cs[0], OpView::PfToBv(len), a)
    &&& is_node1(t.cs[1], OpView::PfToBv(len), b)
}

/// Equality, its opposite and a choice are single operators on their operands,
/// in order.
pub proof fn law_choice_terms(c: TermView, a: PyTermView, b: PyTermView)
    requires
        a.ty == b.ty,
    ensures
        gives_node2(eq_value(a, b), OpView::Eq, a.term, b.term),
        is_node1(neq_value(a, b)->Ok_0.term, OpView::Not, eq_value(a, b)->Ok_0.term),
        choice(c, a, b)->Ok_0.term.op == OpView::Ite,
        choice(c, a, b)->Ok_0.term.cs =~= seq![c, a.term, b.term],
{
}

} // verus!
