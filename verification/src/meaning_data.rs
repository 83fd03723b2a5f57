//! What operations on arrays, bits and classes mean.
use crate::arrays::{
    array_size, array_value, coerced, filled, selected, slice_bounds, slice_fits, sliced, stored,
    stored_if, value_terms,
};
use crate::bits::{bits_le, bits_of, field_bits, from_bits, joined_bits, to_bits};
use crate::classes::{field_selected, field_stored};
use crate::error::ErrorView;
use crate::ir::{node1, pf_lit, BvBinPred, OpView, SortView, TermView, ValueView};
use crate::meaning::{
    bv, eval, fe, joined, lemma_eval, lemma_eval1, lemma_eval2, lemma_eval3, lemma_eval4,
    lemma_eval_const, op_value,
};
use crate::meaning_numbers::{gives_number, gives_truth, number};
use crate::names::{
    by_name, lemma_by_name_contains, lemma_find_name, lemma_name_index, name_index, names_distinct,
};
use crate::pyterm::{
    class_slots, class_value, elem, field_tys, lemma_class_slots, py, unwrapped, PyTermView,
};
use crate::refusals::law_field_select_accepts;
use crate::ty::TyView;
use crate::typing::value_sort;
use vstd::arithmetic::div_mod::{lemma_mod_bound, lemma_small_mod};
use vstd::arithmetic::power2::{lemma_pow2_pos, lemma_pow2_unfold, pow2};
use vstd::prelude::*;

verus! {

/// Whether a term is an array with the given elements.
pub open spec fn holds_elems(
    t: TermView,
    xs: Seq<ValueView>,
    env: Map<Seq<char>, ValueView>,
    p: int,
) -> bool {
    eval(t, env) matches Some(v) && v is Array && v->Array_0 == SortView::Field(p)
        && v->Array_2 == xs
}

/// Whether a value is an array with the given elements.
pub open spec fn is_array(
    a: PyTermView,
    xs: Seq<ValueView>,
    env: Map<Seq<char>, ValueView>,
    p: int,
) -> bool {
    array_size(a.ty) == Some(xs.len()) && holds_elems(a.term, xs, env, p)
}

/// Whether an operation gives an array with the given elements.
pub open spec fn gives_array(
    r: Result<PyTermView, ErrorView>,
    xs: Seq<ValueView>,
    env: Map<Seq<char>, ValueView>,
    p: int,
) -> bool {
    r is Ok && is_array(r->Ok_0, xs, env, p)
}

/// The place in an array that a number points to.
pub open spec fn place(idx: PyTermView, i: int, p: int) -> int {
    if idx.ty == TyView::Field {
        i
    } else {
        i % p
    }
}

/// An array of values has their values.
pub proof fn law_array_means(
    ts: Seq<PyTermView>,
    sort: SortView,
    xs: Seq<ValueView>,
    env: Map<Seq<char>, ValueView>,
    p: int,
)
    requires
        array_value(ts, sort, p) is Ok,
        ts.len() == xs.len(),
        forall|i: int| 0 <= i < ts.len() ==> eval((#[trigger] ts[i]).term, env) == Some(xs[i]),
    ensures
        gives_array(array_value(ts, sort, p), xs, env, p),
{
    let vs = value_terms(ts);
    assert forall|i: int| 0 <= i < vs.len() implies eval(#[trigger] vs[i], env) == Some(
        xs[i],
    ) by {
        assert(eval(ts[i].term, env) == Some(xs[i]));
    }
    lemma_eval(OpView::Array(SortView::Field(p), sort), vs, xs, env);
}

/// An array filled with a value has it throughout.
pub proof fn law_fill_means(
    value: PyTermView,
    size: nat,
    x: ValueView,
    env: Map<Seq<char>, ValueView>,
    p: int,
)
    requires
        eval(value.term, env) == Some(x),
        value_sort(x) is Some,
    ensures
        is_array(filled(value, size, p), Seq::new(size, |i: int| x), env, p),
{
    let op = OpView::Fill(SortView::Field(p), size);
    lemma_eval1(op, value.term, x, env);
    assert(seq![x][0] == x);
    assert(op_value(op, seq![x], env)->0->Array_2 =~= Seq::new(size, |i: int| x));
}

/// The elements that are read at the places of an array: where there are more
/// places than field elements, the indices start over.
pub open spec fn wrapped(xs: Seq<ValueView>, p: int) -> Seq<ValueView> {
    Seq::new(xs.len(), |i: int| xs[i % p])
}

/// Where the field has an index for each place, the elements are read as they
/// are.
pub proof fn lemma_wrapped_same(xs: Seq<ValueView>, p: int)
    requires
        xs.len() <= p,
    ensures
        wrapped(xs, p) == xs,
{
    assert forall|i: int| 0 <= i < xs.len() implies wrapped(xs, p)[i] == xs[i] by {
        lemma_small_mod(i as nat, p as nat);
    }
    assert(wrapped(xs, p) =~= xs);
}

/// The element of an array at a constant index, which counts modulo the
/// modulus.
pub proof fn lemma_elem_wraps(
    a: TermView,
    xs: Seq<ValueView>,
    i: int,
    env: Map<Seq<char>, ValueView>,
    p: int,
)
    requires
        p > 0,
        holds_elems(a, xs, env, p),
        0 <= i < xs.len(),
    ensures
        eval(elem(a, i, p), env) == Some(wrapped(xs, p)[i]),
{
    lemma_mod_bound(i, p);
    if i < p {
        lemma_small_mod(i as nat, p as nat);
    }
    lemma_eval_const(fe(i % p, p), env);
    lemma_eval2(OpView::Select, a, pf_lit(i, p), eval(a, env)->0, fe(i % p, p), env);
}

/// The element of an array at a constant index.
pub proof fn lemma_elem_means(
    a: TermView,
    xs: Seq<ValueView>,
    i: int,
    env: Map<Seq<char>, ValueView>,
    p: int,
)
    requires
        holds_elems(a, xs, env, p),
        0 <= i < xs.len() <= p,
    ensures
        eval(elem(a, i, p), env) == Some(xs[i]),
{
    lemma_small_mod(i as nat, p as nat);
    lemma_eval_const(fe(i % p, p), env);
    lemma_eval2(OpView::Select, a, pf_lit(i, p), eval(a, env)->0, fe(i, p), env);
}

/// The elements of an array are what it holds, read at indices that count
/// modulo the modulus.
pub proof fn law_elements_wrap(
    a: PyTermView,
    xs: Seq<ValueView>,
    env: Map<Seq<char>, ValueView>,
    p: int,
)
    requires
        p > 0,
        is_array(a, xs, env, p),
    ensures
        unwrapped(a, p) is Ok,
        unwrapped(a, p)->Ok_0.len() == xs.len(),
        forall|i: int|
            0 <= i < xs.len() ==> eval((#[trigger] unwrapped(a, p)->Ok_0[i]).term, env) == Some(
                wrapped(xs, p)[i],
            ),
{
    let ts = unwrapped(a, p)->Ok_0;
    assert forall|i: int| 0 <= i < xs.len() implies eval((#[trigger] ts[i]).term, env) == Some(
        wrapped(xs, p)[i],
    ) by {
        lemma_elem_wraps(a.term, xs, i, env, p);
    }
}

/// The elements of an array are what it holds, where the field has an index
/// for each.
pub proof fn law_elements_mean(
    a: PyTermView,
    xs: Seq<ValueView>,
    env: Map<Seq<char>, ValueView>,
    p: int,
)
    requires
        is_array(a, xs, env, p),
        xs.len() <= p,
    ensures
        unwrapped(a, p) is Ok,
        unwrapped(a, p)->Ok_0.len() == xs.len(),
        forall|i: int|
            0 <= i < xs.len() ==> eval((#[trigger] unwrapped(a, p)->Ok_0[i]).term, env) == Some(
                xs[i],
            ),
{
    let ts = unwrapped(a, p)->Ok_0;
    assert forall|i: int| 0 <= i < xs.len() implies eval((#[trigger] ts[i]).term, env) == Some(
        xs[i],
    ) by {
        lemma_elem_means(a.term, xs, i, env, p);
    }
}

proof fn lemma_coerced_means(
    idx: PyTermView,
    i: int,
    env: Map<Seq<char>, ValueView>,
    p: int,
)
    requires
        p > 0,
        number(idx, i, env, p),
    ensures
        coerced(idx, p) is Ok,
        eval(coerced(idx, p)->Ok_0, env) == Some(fe(place(idx, i, p), p)),
        0 <= place(idx, i, p) < p,
{
    match idx.ty {
        TyView::Uint(w) => {
            lemma_eval1(OpView::UbvToPf(p), idx.term, bv(i, w), env);
            lemma_mod_bound(i, p);
        },
        _ => {},
    }
}

/// Reading an array at an index gives the element there.
pub proof fn law_select_means(
    array: PyTermView,
    xs: Seq<ValueView>,
    idx: PyTermView,
    i: int,
    env: Map<Seq<char>, ValueView>,
    p: int,
)
    requires
        p > 0,
        is_array(array, xs, env, p),
        number(idx, i, env, p),
        place(idx, i, p) < xs.len(),
    ensures
        selected(array, idx, p) is Ok,
        eval(selected(array, idx, p)->Ok_0.term, env) == Some(xs[place(idx, i, p)]),
{
    lemma_coerced_means(idx, i, env, p);
    lemma_eval2(
        OpView::Select,
        array.term,
        coerced(idx, p)->Ok_0,
        eval(array.term, env)->0,
        fe(place(idx, i, p), p),
        env,
    );
}

/// Writing a value at an index of an array replaces the element there and no
/// other.
pub proof fn law_store_means(
    array: PyTermView,
    xs: Seq<ValueView>,
    idx: PyTermView,
    i: int,
    val: PyTermView,
    x: ValueView,
    env: Map<Seq<char>, ValueView>,
    p: int,
)
    requires
        p > 0,
        array.ty is Array,
        is_array(array, xs, env, p),
        number(idx, i, env, p),
        place(idx, i, p) < xs.len(),
        eval(val.term, env) == Some(x),
    ensures
        gives_array(stored(array, idx, val, p), xs.update(place(idx, i, p), x), env, p),
{
    lemma_coerced_means(idx, i, env, p);
    lemma_eval3(
        OpView::Store,
        array.term,
        coerced(idx, p)->Ok_0,
        val.term,
        eval(array.term, env)->0,
        fe(place(idx, i, p), p),
        x,
        env,
    );
}

/// What was written at an index of an array is read there, and what was at
/// another index still is.
pub proof fn law_select_after_store(
    array: PyTermView,
    xs: Seq<ValueView>,
    idx: PyTermView,
    i: int,
    val: PyTermView,
    other: PyTermView,
    j: int,
    env: Map<Seq<char>, ValueView>,
    p: int,
)
    requires
        p > 0,
        array.ty is Array,
        is_array(array, xs, env, p),
        number(idx, i, env, p),
        place(idx, i, p) < xs.len(),
        eval(val.term, env) is Some,
        number(other, j, env, p),
        place(other, j, p) < xs.len(),
    ensures
        stored(array, idx, val, p) is Ok,
        ({
            let b = stored(array, idx, val, p)->Ok_0;
            &&& selected(b, other, p) is Ok
            &&& selected(array, other, p) is Ok
            &&& eval(selected(b, other, p)->Ok_0.term, env) == if place(other, j, p) == place(
                idx,
                i,
                p,
            ) {
                eval(val.term, env)
            } else {
                eval(selected(array, other, p)->Ok_0.term, env)
            }
        }),
{
    let x = eval(val.term, env)->0;
    law_store_means(array, xs, idx, i, val, x, env, p);
    let b = stored(array, idx, val, p)->Ok_0;
    law_select_means(b, xs.update(place(idx, i, p), x), other, j, env, p);
    law_select_means(array, xs, other, j, env, p);
}

/// Writing a number at an index of an array where a condition holds replaces
/// the element there; where it does not hold the array stays as it is.
pub proof fn law_store_if_means(
    array: PyTermView,
    xs: Seq<ValueView>,
    idx: PyTermView,
    i: int,
    val: PyTermView,
    y: int,
    cond: TermView,
    c: bool,
    env: Map<Seq<char>, ValueView>,
    p: int,
)
    requires
        p > 0,
        is_array(array, xs, env, p),
        number(idx, i, env, p),
        place(idx, i, p) < xs.len(),
        number(val, y, env, p),
        eval(cond, env) == Some(ValueView::Bool(c)),
    ensures
        gives_array(
            stored_if(array, idx, val, cond, p),
            if c {
                xs.update(place(idx, i, p), fe(place(val, y, p), p))
            } else {
                xs
            },
            env,
            p,
        ),
{
    lemma_coerced_means(idx, i, env, p);
    lemma_coerced_means(val, y, env, p);
    lemma_eval4(
        OpView::CStore,
        (array.term, coerced(idx, p)->Ok_0, coerced(val, p)->Ok_0, cond),
        (
            eval(array.term, env)->0,
            fe(place(idx, i, p), p),
            fe(place(val, y, p), p),
            ValueView::Bool(c),
        ),
        env,
    );
}

/// A slice of an array has the elements from its start up to its end, where
/// the field has an index for each element of the array.
pub proof fn law_slice_means(
    arr: PyTermView,
    xs: Seq<ValueView>,
    start: Option<usize>,
    end: Option<usize>,
    sort: SortView,
    env: Map<Seq<char>, ValueView>,
    p: int,
)
    requires
        is_array(arr, xs, env, p),
        xs.len() <= p,
        slice_fits(arr.ty, start, end),
        slice_bounds(start, end, xs.len()).0 < slice_bounds(start, end, xs.len()).1,
    ensures
        ({
            let (s, e) = slice_bounds(start, end, xs.len());
            gives_array(sliced(arr, start, end, sort, p), xs.subrange(s, e), env, p)
        }),
{
    let (s, e) = slice_bounds(start, end, xs.len());
    law_elements_mean(arr, xs, env, p);
    let ts = unwrapped(arr, p)->Ok_0;
    let part = ts.subrange(s, e);
    let want = xs.subrange(s, e);
    assert forall|i: int| 0 <= i < part.len() implies eval((#[trigger] part[i]).term, env) == Some(
        want[i],
    ) && part[i].ty == part[0].ty by {
        assert(part[i] == ts[s + i]);
        assert(part[0] == ts[s]);
    }
    law_array_means(part, sort, want, env, p);
}

/// The `w` bits of a number, the most significant first.
pub open spec fn bit_values(x: int, w: nat) -> Seq<ValueView> {
    Seq::new(w, |i: int| ValueView::Bool((x / (pow2((w - 1 - i) as nat) as int)) % 2 == 1))
}

/// The number that bits write, the most significant first.
pub open spec fn bits_number(xs: Seq<ValueView>) -> int
    decreases xs.len(),
{
    if xs.len() == 0 {
        0
    } else {
        2 * bits_number(xs.drop_last()) + if xs.last() == ValueView::Bool(true) {
            1int
        } else {
            0
        }
    }
}

/// Whether all values are Booleans.
pub open spec fn all_bools(xs: Seq<ValueView>) -> bool {
    forall|i: int| 0 <= i < xs.len() ==> (#[trigger] xs[i]) is Bool
}

proof fn lemma_bit_values(x: int, w: nat)
    requires
        0 <= x,
        w > 0,
    ensures
        bit_values(x, w).drop_last() == bit_values(x / 2, (w - 1) as nat),
        bit_values(x, w).last() == ValueView::Bool(x % 2 == 1),
{
    let a = bit_values(x, w).drop_last();
    let b = bit_values(x / 2, (w - 1) as nat);
    assert forall|i: int| 0 <= i < a.len() implies a[i] == b[i] by {
        let k = (w - 1 - i) as nat;
        lemma_pow2_unfold(k);
        lemma_pow2_pos((k - 1) as nat);
        vstd::arithmetic::div_mod::lemma_div_denominator(x, 2, pow2((k - 1) as nat) as int);
    }
    assert(a =~= b);
    vstd::arithmetic::power2::lemma2_to64();
    assert(x / 1 == x);
}

/// The bits of a number write the number.
pub proof fn lemma_bits_of_number(x: int, w: nat)
    requires
        0 <= x < pow2(w),
    ensures
        bits_number(bit_values(x, w)) == x,
    decreases w,
{
    vstd::arithmetic::power2::lemma2_to64();
    if w > 0 {
        lemma_bit_values(x, w);
        lemma_pow2_unfold(w);
        lemma_bits_of_number(x / 2, (w - 1) as nat);
    }
}

/// The number that bits write has those bits, and fits their length.
pub proof fn lemma_number_of_bits(xs: Seq<ValueView>)
    requires
        all_bools(xs),
    ensures
        bit_values(bits_number(xs), xs.len()) == xs,
        0 <= bits_number(xs) < pow2(xs.len()),
    decreases xs.len(),
{
    vstd::arithmetic::power2::lemma2_to64();
    if xs.len() == 0 {
        assert(bit_values(0, 0) =~= xs);
    } else {
        let init = xs.drop_last();
        assert forall|i: int| 0 <= i < init.len() implies (#[trigger] init[i]) is Bool by {
            assert(init[i] == xs[i]);
        }
        lemma_number_of_bits(init);
        lemma_pow2_unfold(xs.len());
        let x = bits_number(xs);
        lemma_bit_values(x, xs.len());
        assert(x / 2 == bits_number(init));
        assert(xs.last() is Bool);
        assert(bit_values(x, xs.len()).last() == xs.last());
        assert(bit_values(x, xs.len()) =~= bit_values(x, xs.len()).drop_last().push(
            bit_values(x, xs.len()).last(),
        ));
        assert(xs =~= init.push(xs.last()));
    }
}

/// The bits of an unsigned integer are those of its number, the most
/// significant first.
pub proof fn law_to_bits_means(
    u: PyTermView,
    w: nat,
    x: int,
    env: Map<Seq<char>, ValueView>,
    p: int,
)
    requires
        u.ty == TyView::Uint(w),
        number(u, x, env, p),
    ensures
        gives_array(to_bits(u, p), bit_values(x, w), env, p),
        to_bits(u, p)->Ok_0.ty == TyView::Array(w, Box::new(TyView::Bool)),
{
    let ts = bits_of(u.term, w);
    let xs = bit_values(x, w);
    assert forall|i: int| 0 <= i < ts.len() implies eval(#[trigger] ts[i], env) == Some(
        xs[i],
    ) by {
        let k = (w - 1 - i) as nat;
        lemma_eval1(OpView::BvBit(k), u.term, bv(x, w), env);
        assert(seq![bv(x, w)][0] == bv(x, w));
    }
    lemma_eval(OpView::Array(SortView::Field(p), SortView::Bool), ts, xs, env);
}

/// The bits of a field element are those of its number, where they hold it.
pub proof fn law_field_bits_means(
    f: PyTermView,
    n: nat,
    x: int,
    env: Map<Seq<char>, ValueView>,
    p: int,
)
    requires
        f.ty == TyView::Field,
        number(f, x, env, p),
        x < pow2(n),
    ensures
        gives_array(field_bits(f, n, p), bit_values(x, n), env, p),
{
    lemma_eval1(OpView::PfToBv(n), f.term, fe(x, p), env);
    law_to_bits_means(
        py(TyView::Uint(n), node1(OpView::PfToBv(n), f.term)),
        n,
        x,
        env,
        p,
    );
}

proof fn lemma_joined_number(vs: Seq<ValueView>, xs: Seq<ValueView>)
    requires
        vs.len() == xs.len(),
        forall|i: int|
            0 <= i < xs.len() ==> (#[trigger] vs[i]) == bv(
                if xs[i] == ValueView::Bool(true) {
                    1
                } else {
                    0
                },
                1,
            ),
    ensures
        joined(vs).uint == bits_number(xs),
        joined(vs).width == xs.len(),
    decreases xs.len(),
{
    if xs.len() > 0 {
        let v = vs.drop_last();
        let x = xs.drop_last();
        assert forall|i: int| 0 <= i < x.len() implies (#[trigger] v[i]) == bv(
            if x[i] == ValueView::Bool(true) {
                1
            } else {
                0
            },
            1,
        ) by {
            assert(v[i] == vs[i]);
        }
        lemma_joined_number(v, x);
        vstd::arithmetic::power2::lemma2_to64();
        assert(vs[xs.len() - 1] == vs.last());
        let high = joined(v).uint;
        assert(high * pow2(1) == 2 * high) by (nonlinear_arith)
            requires
                pow2(1) == 2,
        ;
    }
}

proof fn lemma_joined_wraps(
    barr: TermView,
    xs: Seq<ValueView>,
    env: Map<Seq<char>, ValueView>,
    p: int,
)
    requires
        p > 0 || xs.len() == 0,
        holds_elems(barr, xs, env, p),
        all_bools(xs),
    ensures
        eval(joined_bits(barr, xs.len(), p), env) == Some(
            bv(bits_number(wrapped(xs, p)), xs.len()),
        ),
        all_bools(wrapped(xs, p)),
{
    let ys = wrapped(xs, p);
    let ts = joined_bits(barr, xs.len(), p).cs;
    let vs = Seq::new(
        xs.len(),
        |i: int|
            bv(
                if ys[i] == ValueView::Bool(true) {
                    1
                } else {
                    0
                },
                1,
            ),
    );
    assert forall|i: int| 0 <= i < xs.len() implies (#[trigger] ys[i]) is Bool by {
        lemma_mod_bound(i, p);
        if i < p {
            lemma_small_mod(i as nat, p as nat);
        }
        assert(xs[i % p] is Bool);
    }
    assert forall|i: int| 0 <= i < ts.len() implies eval(#[trigger] ts[i], env) == Some(
        vs[i],
    ) by {
        lemma_elem_wraps(barr, xs, i, env, p);
        assert(ys[i] is Bool);
        lemma_eval1(OpView::BoolToBv, elem(barr, i, p), ys[i], env);
    }
    lemma_eval(OpView::BvConcat, ts, vs, env);
    lemma_joined_number(vs, ys);
}

proof fn lemma_joined_means(
    barr: TermView,
    xs: Seq<ValueView>,
    env: Map<Seq<char>, ValueView>,
    p: int,
)
    requires
        holds_elems(barr, xs, env, p),
        all_bools(xs),
        xs.len() <= p,
    ensures
        eval(joined_bits(barr, xs.len(), p), env) == Some(bv(bits_number(xs), xs.len())),
{
    lemma_wrapped_same(xs, p);
    lemma_joined_wraps(barr, xs, env, p);
}

/// The unsigned integer with given bits is the number that they write, read at
/// indices that count modulo the modulus.
pub proof fn law_from_bits_means(
    u: PyTermView,
    n: nat,
    xs: Seq<ValueView>,
    env: Map<Seq<char>, ValueView>,
    p: int,
)
    requires
        u.ty == TyView::Array(n, Box::new(TyView::Bool)),
        n == 8 || n == 16 || n == 32 || n == 64,
        p > 0,
        is_array(u, xs, env, p),
        all_bools(xs),
    ensures
        gives_number(from_bits(u, p), TyView::Uint(n), bits_number(wrapped(xs, p)), env, p),
        n <= p ==> gives_number(from_bits(u, p), TyView::Uint(n), bits_number(xs), env, p),
{
    if n <= p {
        lemma_joined_means(u.term, xs, env, p);
        lemma_number_of_bits(xs);
    }
    lemma_joined_wraps(u.term, xs, env, p);
    lemma_number_of_bits(wrapped(xs, p));
}

/// An unsigned integer is given back by its bits, where the field has an index
/// for each.
pub proof fn law_from_bits_after_to_bits(
    u: PyTermView,
    w: nat,
    x: int,
    env: Map<Seq<char>, ValueView>,
    p: int,
)
    requires
        w == 8 || w == 16 || w == 32 || w == 64,
        w <= p,
        u.ty == TyView::Uint(w),
        number(u, x, env, p),
    ensures
        to_bits(u, p) is Ok,
        gives_number(from_bits(to_bits(u, p)->Ok_0, p), u.ty, x, env, p),
{
    law_to_bits_means(u, w, x, env, p);
    law_from_bits_means(to_bits(u, p)->Ok_0, w, bit_values(x, w), env, p);
    lemma_wrapped_same(bit_values(x, w), p);
    lemma_bits_of_number(x, w);
}

/// Bits are given back by the unsigned integer that they write, where the
/// field has an index for each.
pub proof fn law_to_bits_after_from_bits(
    u: PyTermView,
    n: nat,
    xs: Seq<ValueView>,
    env: Map<Seq<char>, ValueView>,
    p: int,
)
    requires
        u.ty == TyView::Array(n, Box::new(TyView::Bool)),
        n == 8 || n == 16 || n == 32 || n == 64,
        n <= p,
        is_array(u, xs, env, p),
        all_bools(xs),
    ensures
        from_bits(u, p) is Ok,
        gives_array(to_bits(from_bits(u, p)->Ok_0, p), xs, env, p),
        to_bits(from_bits(u, p)->Ok_0, p)->Ok_0.ty == u.ty,
{
    law_from_bits_means(u, n, xs, env, p);
    lemma_wrapped_same(xs, p);
    law_to_bits_means(from_bits(u, p)->Ok_0, n, bits_number(xs), env, p);
    lemma_number_of_bits(xs);
}

/// Comparing two arrays of bits compares the numbers that they write, read at
/// indices that count modulo the modulus.
pub proof fn law_bits_le_means(
    a: PyTermView,
    b: PyTermView,
    n: nat,
    xs: Seq<ValueView>,
    ys: Seq<ValueView>,
    env: Map<Seq<char>, ValueView>,
    p: int,
)
    requires
        a.ty == TyView::Array(n, Box::new(TyView::Bool)),
        b.ty == TyView::Array(n, Box::new(TyView::Bool)),
        p > 0 || n == 0,
        is_array(a, xs, env, p),
        is_array(b, ys, env, p),
        all_bools(xs),
        all_bools(ys),
    ensures
        gives_truth(
            bits_le(a, b, n, p),
            bits_number(wrapped(xs, p)) <= bits_number(wrapped(ys, p)),
            env,
        ),
        n <= p ==> gives_truth(bits_le(a, b, n, p), bits_number(xs) <= bits_number(ys), env),
{
    if n <= p {
        lemma_joined_means(a.term, xs, env, p);
        lemma_joined_means(b.term, ys, env, p);
    }
    lemma_joined_wraps(a.term, xs, env, p);
    lemma_joined_wraps(b.term, ys, env, p);
    lemma_eval2(
        OpView::BvBinPred(BvBinPred::Ule),
        joined_bits(a.term, n, p),
        joined_bits(b.term, n, p),
        bv(bits_number(wrapped(xs, p)), n),
        bv(bits_number(wrapped(ys, p)), n),
        env,
    );
}

/// The field that is read from a class value is the component at the place of
/// the first field with the name; writing it replaces that component and no
/// other.
pub proof fn law_field_means(
    class_: PyTermView,
    name: Seq<char>,
    fs: Seq<(Seq<char>, TyView)>,
    i: int,
    xs: Seq<ValueView>,
    val: PyTermView,
    env: Map<Seq<char>, ValueView>,
)
    requires
        class_.ty == TyView::DataClass(name, fs),
        0 <= i < fs.len(),
        forall|j: int| 0 <= j < i ==> (#[trigger] fs[j]).0 != fs[i].0,
        eval(class_.term, env) == Some(ValueView::Tuple(xs)),
        i < xs.len(),
        val.ty == fs[i].1,
        eval(val.term, env) is Some,
    ensures
        field_selected(class_, fs[i].0) is Ok,
        field_selected(class_, fs[i].0)->Ok_0.ty == fs[i].1,
        eval(field_selected(class_, fs[i].0)->Ok_0.term, env) == Some(xs[i]),
        field_stored(class_, fs[i].0, val) is Ok,
        eval(field_stored(class_, fs[i].0, val)->Ok_0.term, env) == Some(
            ValueView::Tuple(xs.update(i, eval(val.term, env)->0)),
        ),
{
    law_field_select_accepts(name, fs, i, class_, fs[i].0);
    lemma_find_name(fs, fs[i].0, 0);
    let k = name_index(fs, fs[i].0)->0;
    if k < i {
        assert(fs[k].0 != fs[i].0);
    }
    lemma_eval1(OpView::Field(i as nat), class_.term, ValueView::Tuple(xs), env);
    lemma_eval2(
        OpView::Update(i as nat),
        class_.term,
        val.term,
        ValueView::Tuple(xs),
        eval(val.term, env)->0,
        env,
    );
}

/// A field that a class value was made with is read from it, where the names
/// of the fields are different.
pub proof fn law_field_select_after_new_class(
    name: Seq<char>,
    fs: Seq<(Seq<char>, PyTermView)>,
    i: int,
    env: Map<Seq<char>, ValueView>,
)
    requires
        names_distinct(fs),
        0 <= i < fs.len(),
        forall|j: int| 0 <= j < fs.len() ==> eval((#[trigger] fs[j]).1.term, env) is Some,
    ensures
        field_selected(class_value(name, fs), fs[i].0) is Ok,
        field_selected(class_value(name, fs), fs[i].0)->Ok_0.ty == fs[i].1.ty,
        eval(field_selected(class_value(name, fs), fs[i].0)->Ok_0.term, env) == eval(
            fs[i].1.term,
            env,
        ),
{
    let c = class_value(name, fs);
    let order = by_name(field_tys(fs));
    let all = class_slots(fs);
    lemma_class_slots(fs);
    let ts = all.map_values(|j: int| fs[j].1.term);
    let xs = Seq::new(fs.len(), |k: int| eval(fs[all[k]].1.term, env)->0);
    assert forall|k: int| 0 <= k < ts.len() implies eval(#[trigger] ts[k], env) == Some(
        xs[k],
    ) by {
        let j = all[k];
        assert(eval(fs[j].1.term, env) is Some);
    }
    lemma_eval(OpView::Tuple, ts, xs, env);
    let tys = field_tys(fs);
    lemma_by_name_contains(tys, tys[i]);
    assert(tys.contains(tys[i]));
    let k = choose|k: int| 0 <= k < order.len() && order[k] == tys[i];
    lemma_name_index(order, k);
    assert(all[k] == i) by {
        let j = all[k];
        assert(fs[j].0 == order[k].0);
        if j < i {
            assert(fs[j].0 != fs[i].0);
        } else if i < j {
            assert(fs[i].0 != fs[j].0);
        }
    }
    lemma_eval1(OpView::Field(k as nat), c.term, ValueView::Tuple(xs), env);
}

/// What was written into a field of a class value is read from it, what was in
/// another field still is, and the type stays as it is.
pub proof fn law_field_select_after_store(
    class_: PyTermView,
    field: Seq<char>,
    val: PyTermView,
    other: Seq<char>,
    n: nat,
    env: Map<Seq<char>, ValueView>,
)
    requires
        class_.ty matches TyView::DataClass(_, fs) && fs.len() == n,
        eval(class_.term, env) matches Some(v) && v is Tuple && v->Tuple_0.len() == n,
        eval(val.term, env) is Some,
        field_stored(class_, field, val) is Ok,
        field_selected(class_, other) is Ok,
    ensures
        ({
            let c = field_stored(class_, field, val)->Ok_0;
            &&& c.ty == class_.ty
            &&& field_selected(c, other) is Ok
            &&& field_selected(c, other)->Ok_0.ty == field_selected(class_, other)->Ok_0.ty
            &&& eval(field_selected(c, other)->Ok_0.term, env) == if other == field {
                eval(val.term, env)
            } else {
                eval(field_selected(class_, other)->Ok_0.term, env)
            }
        }),
{
    let fs = class_.ty->DataClass_1;
    let c = field_stored(class_, field, val)->Ok_0;
    lemma_find_name(fs, field, 0);
    lemma_find_name(fs, other, 0);
    let i = name_index(fs, field)->0;
    let j = name_index(fs, other)->0;
    let xs = eval(class_.term, env)->0->Tuple_0;
    let x = eval(val.term, env)->0;
    lemma_eval2(
        OpView::Update(i as nat),
        class_.term,
        val.term,
        ValueView::Tuple(xs),
        x,
        env,
    );
    lemma_eval1(OpView::Field(j as nat), c.term, ValueView::Tuple(xs.update(i, x)), env);
    lemma_eval1(OpView::Field(j as nat), class_.term, ValueView::Tuple(xs), env);
}

} // verus!
