//! What the scalars inside values and inputs mean.
use crate::arrays::{array_value, value_terms};
use crate::ir::{
    default_value, default_values, known_sort, known_sorts, leaf, node1, OpView, SortView, TermView,
    ValueView,
};
use crate::meaning::{eval, lemma_eval, lemma_eval1, lemma_eval_const};
use crate::meaning_data::{holds_elems, law_array_means, lemma_elem_means};
use crate::meaning_numbers::number;
use crate::names::{by_name, law_by_name_keeps_ordered, name_lt, names_distinct, names_ordered};
use crate::pyterm::{
    class_slots, component_scalars, elem, elem_scalars, field_tys, lemma_class_slots, py, scalars,
    PyTermView,
};
use crate::python::{
    assembled, assembled_class, assembled_elems, assembled_fields, assembled_values, declarable,
    declared_fields, declared_ty, elem_count, elem_vars, field_count, field_name_text, field_vars,
    fields_declarable, idx_name_text, input_count, input_vars, lemma_assembled,
    lemma_assembled_elems, lemma_assembled_fields, lemma_elem_vars_count, lemma_field_vars_count,
    lemma_input_vars_count, next_after, pre_elem, Assembled, InputView,
};
use crate::ty::{field_sorts, lemma_ty_sort_known, ty_sort, TyView};
use crate::typed_data::lemma_default_sort;
use crate::typing::{all_of, present, value_sort, value_sorts};
use vstd::arithmetic::power2::lemma_pow2_pos;
use vstd::prelude::*;

verus! {

/// The scalars that a value is made of, in order.
pub open spec fn flat(v: ValueView) -> Seq<ValueView>
    decreases v, 0nat,
{
    match v {
        ValueView::Tuple(vs) => flats(vs, vs.len()),
        ValueView::Array(_, _, vs) => flats(vs, vs.len()),
        _ => seq![v],
    }
}

/// The scalars that the first `n` values are made of.
pub open spec fn flats(vs: Seq<ValueView>, n: nat) -> Seq<ValueView>
    decreases vs, n,
{
    if n == 0 || n > vs.len() {
        Seq::empty()
    } else {
        flats(vs, (n - 1) as nat) + flat(vs[n - 1])
    }
}

/// Whether each array in a sort is indexed by field elements, and the field
/// has an index for each place.
pub open spec fn indexable(s: SortView, p: int) -> bool
    decreases s,
{
    match s {
        SortView::Array(k, v, n) => *k == SortView::Field(p) && n <= p && indexable(*v, p),
        SortView::Tuple(ss) => all_indexable(ss, p),
        _ => true,
    }
}

pub open spec fn all_indexable(ss: Seq<SortView>, p: int) -> bool
    decreases ss,
{
    forall|i: int| 0 <= i < ss.len() ==> indexable(#[trigger] ss[i], p)
}

/// Whether terms have the given values, one for one.
pub open spec fn have_values(
    ts: Seq<TermView>,
    xs: Seq<ValueView>,
    env: Map<Seq<char>, ValueView>,
) -> bool {
    &&& ts.len() == xs.len()
    &&& forall|i: int| 0 <= i < ts.len() ==> eval(#[trigger] ts[i], env) == Some(xs[i])
}

proof fn lemma_have_values_add(
    a: Seq<TermView>,
    b: Seq<TermView>,
    xs: Seq<ValueView>,
    ys: Seq<ValueView>,
    env: Map<Seq<char>, ValueView>,
)
    requires
        have_values(a, xs, env),
        have_values(b, ys, env),
    ensures
        have_values(a + b, xs + ys, env),
{
    let ts = a + b;
    let zs = xs + ys;
    assert forall|i: int| 0 <= i < ts.len() implies eval(#[trigger] ts[i], env) == Some(
        zs[i],
    ) by {
        if i < a.len() {
            assert(ts[i] == a[i]);
        } else {
            assert(ts[i] == b[i - a.len()]);
        }
    }
}

proof fn lemma_part_sorts(vs: Seq<ValueView>)
    requires
        present(value_sorts(vs)) is Some,
    ensures
        present(value_sorts(vs))->0.len() == vs.len(),
        forall|i: int|
            0 <= i < vs.len() ==> value_sort(#[trigger] vs[i]) == Some(
                present(value_sorts(vs))->0[i],
            ),
{
    let all = value_sorts(vs);
    assert forall|i: int| 0 <= i < vs.len() implies value_sort(#[trigger] vs[i]) == Some(
        present(all)->0[i],
    ) by {
        assert(all[i] is Some);
        assert(all[i] == value_sort(vs[i]));
    }
}

/// The scalars inside a term have the scalars that its value is made of, in
/// order.
pub proof fn law_scalars_mean(
    t: TermView,
    s: SortView,
    v: ValueView,
    env: Map<Seq<char>, ValueView>,
    p: int,
)
    requires
        eval(t, env) == Some(v),
        value_sort(v) == Some(s),
        indexable(s, p),
    ensures
        have_values(scalars(t, s, p), flat(v), env),
    decreases s, 0nat,
{
    match v {
        ValueView::Tuple(vs) => {
            lemma_part_sorts(vs);
            lemma_component_scalars_mean(t, present(value_sorts(vs))->0, vs, vs.len(), env, p);
        },
        ValueView::Array(k, w, vs) => {
            lemma_part_sorts(vs);
            let ss = present(value_sorts(vs))->0;
            assert forall|i: int| 0 <= i < vs.len() implies value_sort(#[trigger] vs[i]) == Some(
                w,
            ) by {
                assert(ss[i] == w);
            }
            lemma_elem_scalars_mean(t, w, vs, vs.len(), env, p);
        },
        _ => {},
    }
}

proof fn lemma_elem_scalars_mean(
    t: TermView,
    w: SortView,
    vs: Seq<ValueView>,
    n: nat,
    env: Map<Seq<char>, ValueView>,
    p: int,
)
    requires
        holds_elems(t, vs, env, p),
        n <= vs.len() <= p,
        indexable(w, p),
        forall|i: int| 0 <= i < vs.len() ==> value_sort(#[trigger] vs[i]) == Some(w),
    ensures
        have_values(elem_scalars(t, w, n, p), flats(vs, n), env),
    decreases w, n,
{
    if n > 0 {
        lemma_elem_scalars_mean(t, w, vs, (n - 1) as nat, env, p);
        lemma_elem_means(t, vs, n - 1, env, p);
        law_scalars_mean(elem(t, n - 1, p), w, vs[n - 1], env, p);
        lemma_have_values_add(
            elem_scalars(t, w, (n - 1) as nat, p),
            scalars(elem(t, n - 1, p), w, p),
            flats(vs, (n - 1) as nat),
            flat(vs[n - 1]),
            env,
        );
    }
}

proof fn lemma_component_scalars_mean(
    t: TermView,
    ss: Seq<SortView>,
    vs: Seq<ValueView>,
    n: nat,
    env: Map<Seq<char>, ValueView>,
    p: int,
)
    requires
        eval(t, env) == Some(ValueView::Tuple(vs)),
        ss.len() == vs.len(),
        n <= vs.len(),
        all_indexable(ss, p),
        forall|i: int| 0 <= i < vs.len() ==> value_sort(#[trigger] vs[i]) == Some(ss[i]),
    ensures
        have_values(component_scalars(t, ss, n, p), flats(vs, n), env),
    decreases ss, n,
{
    if n > 0 {
        let c = node1(OpView::Field((n - 1) as nat), t);
        lemma_component_scalars_mean(t, ss, vs, (n - 1) as nat, env, p);
        lemma_eval1(OpView::Field((n - 1) as nat), t, ValueView::Tuple(vs), env);
        assert(indexable(ss[n - 1], p));
        assert(value_sort(vs[n - 1]) == Some(ss[n - 1]));
        law_scalars_mean(c, ss[n - 1], vs[n - 1], env, p);
        lemma_have_values_add(
            component_scalars(t, ss, (n - 1) as nat, p),
            scalars(c, ss[n - 1], p),
            flats(vs, (n - 1) as nat),
            flat(vs[n - 1]),
            env,
        );
    }
}

/// Whether a scalar is false or zero.
pub open spec fn is_zero(v: ValueView) -> bool {
    match v {
        ValueView::Bool(b) => !b,
        ValueView::BitVector(b) => b.uint == 0,
        ValueView::Field(f) => f.value == 0,
        _ => false,
    }
}

/// Whether all scalars are false or zero.
pub open spec fn all_zero(xs: Seq<ValueView>) -> bool {
    forall|i: int| 0 <= i < xs.len() ==> is_zero(#[trigger] xs[i])
}

proof fn lemma_all_zero_add(xs: Seq<ValueView>, ys: Seq<ValueView>)
    requires
        all_zero(xs),
        all_zero(ys),
    ensures
        all_zero(xs + ys),
{
    let zs = xs + ys;
    assert forall|i: int| 0 <= i < zs.len() implies is_zero(#[trigger] zs[i]) by {
        if i < xs.len() {
            assert(zs[i] == xs[i]);
        } else {
            assert(zs[i] == ys[i - xs.len()]);
        }
    }
}

/// Every scalar that the constant of a sort is made of is false or zero.
pub proof fn lemma_default_zero(s: SortView)
    requires
        known_sort(s),
    ensures
        all_zero(flat(default_value(s))),
    decreases s, 0nat,
{
    match s {
        SortView::Tuple(ss) => {
            lemma_defaults_zero(ss, ss.len());
        },
        SortView::Array(_, v, n) => {
            lemma_default_zero(*v);
            lemma_repeated_zero(default_value(*v), n, n);
        },
        _ => {},
    }
}

proof fn lemma_defaults_zero(ss: Seq<SortView>, n: nat)
    requires
        known_sorts(ss),
        n <= ss.len(),
    ensures
        all_zero(flats(default_values(ss), n)),
    decreases ss, n,
{
    if n > 0 {
        lemma_defaults_zero(ss, (n - 1) as nat);
        assert(known_sort(ss[n - 1]));
        lemma_default_zero(ss[n - 1]);
        lemma_all_zero_add(
            flats(default_values(ss), (n - 1) as nat),
            flat(default_value(ss[n - 1])),
        );
    }
}

proof fn lemma_repeated_zero(v: ValueView, m: nat, n: nat)
    requires
        all_zero(flat(v)),
        m <= n,
    ensures
        all_zero(flats(Seq::new(n, |i: int| v), m)),
    decreases m,
{
    if m > 0 {
        lemma_repeated_zero(v, (m - 1) as nat, n);
        lemma_all_zero_add(flats(Seq::new(n, |i: int| v), (m - 1) as nat), flat(v));
    }
}

/// The value that a type starts from is a constant of the sort of the type, and
/// every scalar that it is made of is false or zero.
pub proof fn law_default_means(ty: TyView, env: Map<Seq<char>, ValueView>, p: int)
    ensures
        eval(leaf(OpView::Const(default_value(ty_sort(ty, p)))), env) == Some(
            default_value(ty_sort(ty, p)),
        ),
        all_zero(flat(default_value(ty_sort(ty, p)))),
        p > 0 ==> value_sort(default_value(ty_sort(ty, p))) == Some(ty_sort(ty, p)),
{
    lemma_eval_const(default_value(ty_sort(ty, p)), env);
    if p > 0 {
        lemma_default_sort(ty, p);
    }
    lemma_ty_sort_known(ty, p);
    lemma_default_zero(ty_sort(ty, p));
}

/// The default of a type of numbers is the number zero.
pub proof fn law_default_number(ty: TyView, env: Map<Seq<char>, ValueView>, p: int)
    requires
        p > 0,
        ty is Uint || ty is Field,
    ensures
        number(py(ty, leaf(OpView::Const(default_value(ty_sort(ty, p))))), 0, env, p),
{
    law_default_means(ty, env, p);
    match ty {
        TyView::Uint(w) => {
            lemma_pow2_pos(w);
        },
        _ => {},
    }
    lemma_scalar_flat(default_value(ty_sort(ty, p)));
    assert(is_zero(flat(default_value(ty_sort(ty, p)))[0]));
}

/// Whether the fields of each class inside a type are in the order of their
/// names, which are different.
pub open spec fn fields_sorted(ty: TyView) -> bool
    decreases ty,
{
    match ty {
        TyView::Array(_, t) => fields_sorted(*t),
        TyView::DataClass(_, fs) => names_ordered(fs) && names_distinct(fs) && all_sorted(fs),
        _ => true,
    }
}

pub open spec fn all_sorted(fs: Seq<(Seq<char>, TyView)>) -> bool
    decreases fs,
{
    forall|i: int| 0 <= i < fs.len() ==> fields_sorted((#[trigger] fs[i]).1)
}

/// Whether values from the `k`th on are of the sorts of variables.
pub open spec fn values_match(xs: Seq<ValueView>, k: int, vs: Seq<InputView>) -> bool {
    &&& 0 <= k
    &&& k + vs.len() <= xs.len()
    &&& forall|i: int| 0 <= i < vs.len() ==> value_sort(xs[k + i]) == Some((#[trigger] vs[i]).sort)
}

proof fn lemma_values_match_add(
    xs: Seq<ValueView>,
    k: int,
    vs: Seq<InputView>,
    ws: Seq<InputView>,
)
    requires
        values_match(xs, k, vs + ws),
    ensures
        values_match(xs, k, vs),
        values_match(xs, k + vs.len(), ws),
{
    let us = vs + ws;
    assert forall|i: int| 0 <= i < vs.len() implies value_sort(xs[k + i]) == Some(
        (#[trigger] vs[i]).sort,
    ) by {
        assert(us[i] == vs[i]);
    }
    assert forall|i: int| 0 <= i < ws.len() implies value_sort(xs[k + vs.len() + i]) == Some(
        (#[trigger] ws[i]).sort,
    ) by {
        assert(us[vs.len() + i] == ws[i]);
        assert(k + vs.len() + i == k + (vs.len() + i));
    }
}

/// Whether a term has a value of the given sort that is made of the given
/// scalars.
pub open spec fn made_of(
    t: TermView,
    s: SortView,
    xs: Seq<ValueView>,
    env: Map<Seq<char>, ValueView>,
) -> bool {
    eval(t, env) matches Some(v) && value_sort(v) == Some(s) && flat(v) == xs
}

proof fn lemma_scalar_flat(v: ValueView)
    requires
        value_sort(v) matches Some(s) && !(s is Tuple) && !(s is Array),
    ensures
        flat(v) == seq![v],
{
}

/// An input put together from variables is made of their values, in the order
/// they are declared in.
pub proof fn lemma_input_made_of(
    ty: TyView,
    name: Seq<char>,
    visibility: Option<u8>,
    pre: Option<PyTermView>,
    vars: Seq<TermView>,
    xs: Seq<ValueView>,
    k: int,
    env: Map<Seq<char>, ValueView>,
    p: int,
)
    requires
        declarable(ty, None),
        fields_sorted(ty),
        have_values(vars, xs, env),
        values_match(xs, k, input_vars(ty, name, visibility, pre, p)),
    ensures
        made_of(
            assembled(ty, vars, k, p).value.term,
            ty_sort(declared_ty(ty), p),
            xs.subrange(k, k + input_count(ty)),
            env,
        ),
    decreases ty, 0nat,
{
    lemma_input_vars_count(ty, name, visibility, pre, p);
    lemma_assembled(ty, vars, k, p);
    let vs = input_vars(ty, name, visibility, pre, p);
    let want = xs.subrange(k, k + input_count(ty));
    match ty {
        TyView::Array(n, t) => {
            let es = assembled_elems(*t, vars, k, n, p);
            let s = ty_sort(declared_ty(*t), p);
            lemma_assembled_elems(*t, vars, k, n, p);
            lemma_elems_made_of(*t, name, visibility, pre, vars, xs, k, n, env, p);
            let ts = assembled_values(es);
            let ys = Seq::new(n, |i: int| eval(es[i].value.term, env)->0);
            assert forall|i: int| 0 <= i < ts.len() implies eval(
                (#[trigger] ts[i]).term,
                env,
            ) == Some(ys[i]) && ts[i].ty == ts[0].ty && value_sort(ys[i]) == Some(s) by {
                assert(elem_ok(es, s, i, env));
                assert(elem_ok(es, s, 0, env));
                assert(es[i].value.ty == declared_ty(*t));
                assert(es[0].value.ty == declared_ty(*t));
            }
            law_array_means(ts, es[0].sort, ys, env, p);
            let whole = array_value(ts, es[0].sort, p)->Ok_0;
            lemma_eval(
                OpView::Array(SortView::Field(p), es[0].sort),
                value_terms(ts),
                ys,
                env,
            );
            lemma_first_sort(*t, vars, k, n, p);
            lemma_all_of_sort(ys, s);
            assert(flat(ValueView::Array(SortView::Field(p), s, ys)) == flats(ys, n));
        },
        TyView::MutArray(n) => {
            let ts = Seq::new(n, |i: int| py(TyView::Field, vars[k + i]));
            assert forall|i: int| 0 <= i < ts.len() implies eval(
                (#[trigger] ts[i]).term,
                env,
            ) == Some(want[i]) && value_sort(want[i]) == Some(SortView::Field(p)) by {
                assert(eval(vars[k + i], env) == Some(xs[k + i]));
                assert(vs[i].sort == SortView::Field(p));
            }
            law_array_means(ts, SortView::Field(p), want, env, p);
            lemma_eval(
                OpView::Array(SortView::Field(p), SortView::Field(p)),
                value_terms(ts),
                want,
                env,
            );
            lemma_all_of_sort(want, SortView::Field(p));
            lemma_flats_scalar(want, SortView::Field(p), n);
            assert(want.take(n as int) =~= want);
            reveal_with_fuel(ty_sort, 2);
        },
        TyView::DataClass(c, fs) => {
            let es = assembled_fields(fs, vars, k, fs.len(), p);
            let named = assembled_class(fs, es);
            lemma_assembled_fields(fs, vars, k, fs.len(), p);
            lemma_fields_made_of(fs, name, visibility, vars, xs, k, fs.len(), env, p);
            lemma_class_in_order(fs, es);
            let ts = class_slots(named).map_values(|j: int| named[j].1.term);
            let ys = Seq::new(fs.len(), |i: int| eval(es[i].value.term, env)->0);
            let ss = field_sorts(declared_fields(fs), p);
            assert forall|i: int| 0 <= i < ts.len() implies eval(#[trigger] ts[i], env) == Some(
                ys[i],
            ) by {
                assert(class_slots(named)[i] == i);
                assert(field_ok(es, fs, i, env, p));
            }
            lemma_eval(OpView::Tuple, ts, ys, env);
            let all = value_sorts(ys);
            assert forall|i: int| 0 <= i < all.len() implies #[trigger] all[i] == Some(ss[i]) by {
                assert(field_ok(es, fs, i, env, p));
            }
            assert(present(all)->0 =~= ss);
        },
        _ => {
            assert(eval(vars[k], env) == Some(xs[k]));
            assert(vs[0].sort == ty_sort(ty, p));
            assert(value_sort(xs[k + 0]) == Some(vs[0].sort));
            lemma_scalar_flat(xs[k]);
            assert(want =~= seq![xs[k]]);
        },
    }
}

/// Whether the `i`th input has a value of the given sort.
spec fn elem_ok(
    es: Seq<Assembled>,
    s: SortView,
    i: int,
    env: Map<Seq<char>, ValueView>,
) -> bool {
    eval(es[i].value.term, env) matches Some(v) && value_sort(v) == Some(s)
}

/// Whether the `i`th field has a value of the sort it is declared with.
spec fn field_ok(
    es: Seq<Assembled>,
    fs: Seq<(Seq<char>, TyView)>,
    i: int,
    env: Map<Seq<char>, ValueView>,
    p: int,
) -> bool {
    eval(es[i].value.term, env) matches Some(v) && value_sort(v) == Some(
        ty_sort(declared_ty(fs[i].1), p),
    )
}

proof fn lemma_all_of_sort(ys: Seq<ValueView>, s: SortView)
    requires
        forall|i: int| 0 <= i < ys.len() ==> value_sort(#[trigger] ys[i]) == Some(s),
    ensures
        present(value_sorts(ys)) is Some,
        all_of(present(value_sorts(ys))->0, s),
{
    let all = value_sorts(ys);
    assert forall|i: int| 0 <= i < all.len() implies #[trigger] all[i] == Some(s) by {
        assert(value_sort(ys[i]) == Some(s));
    }
}

proof fn lemma_flats_scalar(ys: Seq<ValueView>, s: SortView, n: nat)
    requires
        n <= ys.len(),
        !(s is Tuple) && !(s is Array),
        forall|i: int| 0 <= i < ys.len() ==> value_sort(#[trigger] ys[i]) == Some(s),
    ensures
        flats(ys, n) == ys.take(n as int),
    decreases n,
{
    if n > 0 {
        lemma_flats_scalar(ys, s, (n - 1) as nat);
        assert(value_sort(ys[n - 1]) == Some(s));
        lemma_scalar_flat(ys[n - 1]);
        assert(ys.take(n as int) =~= ys.take(n - 1) + seq![ys[n - 1]]);
    } else {
        assert(ys.take(0) =~= Seq::empty());
    }
}

proof fn lemma_flats_prefix(a: Seq<ValueView>, b: Seq<ValueView>, n: nat)
    requires
        n <= a.len(),
        n <= b.len(),
        forall|i: int| 0 <= i < n ==> a[i] == b[i],
    ensures
        flats(a, n) == flats(b, n),
    decreases n,
{
    if n > 0 {
        lemma_flats_prefix(a, b, (n - 1) as nat);
    }
}

proof fn lemma_class_in_order(fs: Seq<(Seq<char>, TyView)>, es: Seq<Assembled>)
    requires
        names_ordered(fs),
        names_distinct(fs),
        es.len() == fs.len(),
        forall|i: int|
            0 <= i < fs.len() ==> (#[trigger] es[i]).value.ty == declared_ty(fs[i].1),
    ensures
        ({
            let named = assembled_class(fs, es);
            &&& field_tys(named) == declared_fields(fs)
            &&& by_name(declared_fields(fs)) == declared_fields(fs)
            &&& class_slots(named).len() == fs.len()
            &&& forall|i: int| 0 <= i < fs.len() ==> #[trigger] class_slots(named)[i] == i
        }),
{
    let named = assembled_class(fs, es);
    let tys = declared_fields(fs);
    assert(field_tys(named) =~= tys);
    assert forall|i: int, j: int| 0 <= i < j < named.len() implies #[trigger] named[i].0
        != #[trigger] named[j].0 by {
        assert(fs[i].0 != fs[j].0);
    }
    assert forall|i: int, j: int| 0 <= i < j < tys.len() implies !name_lt(
        #[trigger] tys[j].0,
        #[trigger] tys[i].0,
    ) by {
        assert(!name_lt(fs[j].0, fs[i].0));
    }
    law_by_name_keeps_ordered(tys);
    lemma_class_slots(named);
    assert forall|i: int| 0 <= i < fs.len() implies #[trigger] class_slots(named)[i] == i by {
        let j = class_slots(named)[i];
        assert(named[j].0 == fs[i].0);
        if j < i {
            assert(fs[j].0 != fs[i].0);
        } else if i < j {
            assert(fs[i].0 != fs[j].0);
        }
    }
}

proof fn lemma_elems_made_of(
    t: TyView,
    name: Seq<char>,
    visibility: Option<u8>,
    pre: Option<PyTermView>,
    vars: Seq<TermView>,
    xs: Seq<ValueView>,
    k: int,
    n: nat,
    env: Map<Seq<char>, ValueView>,
    p: int,
)
    requires
        declarable(t, None),
        fields_sorted(t),
        have_values(vars, xs, env),
        values_match(xs, k, elem_vars(t, name, visibility, pre, n, p)),
    ensures
        ({
            let es = assembled_elems(t, vars, k, n, p);
            &&& es.len() == n
            &&& forall|i: int|
                0 <= i < n ==> #[trigger] elem_ok(es, ty_sort(declared_ty(t), p), i, env)
            &&& flats(Seq::new(n, |i: int| eval(es[i].value.term, env)->0), n) == xs.subrange(
                k,
                k + elem_count(t, n),
            )
        }),
    decreases t, n,
{
    lemma_elem_vars_count(t, name, visibility, pre, n, p);
    let es = assembled_elems(t, vars, k, n, p);
    let ys = Seq::new(n, |i: int| eval(es[i].value.term, env)->0);
    if n == 0 {
        assert(xs.subrange(k, k) =~= Seq::empty());
    } else {
        let m = (n - 1) as nat;
        let before = assembled_elems(t, vars, k, m, p);
        let zs = Seq::new(m, |i: int| eval(before[i].value.term, env)->0);
        let inner = idx_name_text(name, m);
        let inner_pre = pre_elem(pre, n - 1, p);
        lemma_elem_vars_count(t, name, visibility, pre, m, p);
        lemma_values_match_add(
            xs,
            k,
            elem_vars(t, name, visibility, pre, m, p),
            input_vars(t, inner, visibility, inner_pre, p),
        );
        lemma_elems_made_of(t, name, visibility, pre, vars, xs, k, m, env, p);
        lemma_assembled_elems(t, vars, k, m, p);
        let next = next_after(before, k);
        lemma_input_made_of(t, inner, visibility, inner_pre, vars, xs, next, env, p);
        assert forall|i: int| 0 <= i < n implies #[trigger] elem_ok(
            es,
            ty_sort(declared_ty(t), p),
            i,
            env,
        ) by {
            if i < m {
                assert(elem_ok(before, ty_sort(declared_ty(t), p), i, env));
                assert(es[i] == before[i]);
            }
        }
        lemma_flats_prefix(ys, zs, m);
        assert(xs.subrange(k, k + elem_count(t, n)) =~= xs.subrange(k, next) + xs.subrange(
            next,
            next + input_count(t),
        ));
    }
}

/// The sort that an input is put together with is that of its declared type.
pub proof fn lemma_assembled_sort(ty: TyView, vars: Seq<TermView>, k: int, p: int)
    requires
        declarable(ty, None),
        fields_sorted(ty),
    ensures
        assembled(ty, vars, k, p).sort == ty_sort(declared_ty(ty), p),
    decreases ty, 0nat,
{
    match ty {
        TyView::Array(n, t) => {
            lemma_first_sort(*t, vars, k, n, p);
        },
        TyView::MutArray(n) => {
            reveal_with_fuel(ty_sort, 2);
        },
        TyView::DataClass(_, fs) => {
            let es = assembled_fields(fs, vars, k, fs.len(), p);
            lemma_assembled_fields(fs, vars, k, fs.len(), p);
            lemma_field_sorts(fs, vars, k, fs.len(), p);
            lemma_class_in_order(fs, es);
            let named = assembled_class(fs, es);
            let ss = class_slots(named).map_values(|j: int| es[j].sort);
            let want = field_sorts(declared_fields(fs), p);
            assert forall|i: int| 0 <= i < ss.len() implies #[trigger] ss[i] == want[i] by {
                assert(class_slots(named)[i] == i);
                assert(es[i].sort == ty_sort(declared_ty(fs[i].1), p));
            }
            assert(ss =~= want);
        },
        _ => {},
    }
}

proof fn lemma_first_sort(t: TyView, vars: Seq<TermView>, k: int, n: nat, p: int)
    requires
        n > 0,
        declarable(t, None),
        fields_sorted(t),
    ensures
        assembled_elems(t, vars, k, n, p)[0].sort == ty_sort(declared_ty(t), p),
    decreases t, n,
{
    if n == 1 {
        assert(assembled_elems(t, vars, k, 0, p) =~= Seq::empty());
        lemma_assembled_sort(t, vars, k, p);
    } else {
        lemma_first_sort(t, vars, k, (n - 1) as nat, p);
        lemma_assembled_elems(t, vars, k, (n - 1) as nat, p);
    }
}

proof fn lemma_field_sorts(
    fs: Seq<(Seq<char>, TyView)>,
    vars: Seq<TermView>,
    k: int,
    n: nat,
    p: int,
)
    requires
        n <= fs.len(),
        fields_declarable(fs),
        all_sorted(fs),
    ensures
        forall|i: int|
            0 <= i < n ==> (#[trigger] assembled_fields(fs, vars, k, n, p)[i]).sort == ty_sort(
                declared_ty(fs[i].1),
                p,
            ),
    decreases fs, n,
{
    if n > 0 {
        lemma_field_sorts(fs, vars, k, (n - 1) as nat, p);
        lemma_assembled_fields(fs, vars, k, (n - 1) as nat, p);
        let es = assembled_fields(fs, vars, k, (n - 1) as nat, p);
        assert(declarable(fs[n - 1].1, None));
        assert(fields_sorted(fs[n - 1].1));
        lemma_assembled_sort(fs[n - 1].1, vars, next_after(es, k), p);
    }
}

proof fn lemma_fields_made_of(
    fs: Seq<(Seq<char>, TyView)>,
    name: Seq<char>,
    visibility: Option<u8>,
    vars: Seq<TermView>,
    xs: Seq<ValueView>,
    k: int,
    n: nat,
    env: Map<Seq<char>, ValueView>,
    p: int,
)
    requires
        n <= fs.len(),
        fields_declarable(fs),
        all_sorted(fs),
        have_values(vars, xs, env),
        values_match(xs, k, field_vars(fs, name, visibility, n, p)),
    ensures
        ({
            let es = assembled_fields(fs, vars, k, n, p);
            &&& es.len() == n
            &&& forall|i: int| 0 <= i < n ==> #[trigger] field_ok(es, fs, i, env, p)
            &&& flats(Seq::new(n, |i: int| eval(es[i].value.term, env)->0), n) == xs.subrange(
                k,
                k + field_count(fs, n),
            )
        }),
    decreases fs, n,
{
    lemma_field_vars_count(fs, name, visibility, n, p);
    let es = assembled_fields(fs, vars, k, n, p);
    let ys = Seq::new(n, |i: int| eval(es[i].value.term, env)->0);
    if n == 0 {
        assert(xs.subrange(k, k) =~= Seq::empty());
    } else {
        let m = (n - 1) as nat;
        let t = fs[n - 1].1;
        let before = assembled_fields(fs, vars, k, m, p);
        let zs = Seq::new(m, |i: int| eval(before[i].value.term, env)->0);
        let inner = field_name_text(name, fs[n - 1].0);
        lemma_field_vars_count(fs, name, visibility, m, p);
        lemma_values_match_add(
            xs,
            k,
            field_vars(fs, name, visibility, m, p),
            input_vars(t, inner, visibility, None, p),
        );
        lemma_fields_made_of(fs, name, visibility, vars, xs, k, m, env, p);
        lemma_assembled_fields(fs, vars, k, m, p);
        let next = next_after(before, k);
        assert(declarable(fs[n - 1].1, None));
        assert(fields_sorted(fs[n - 1].1));
        lemma_input_made_of(t, inner, visibility, None, vars, xs, next, env, p);
        assert forall|i: int| 0 <= i < n implies #[trigger] field_ok(es, fs, i, env, p) by {
            if i < m {
                assert(field_ok(before, fs, i, env, p));
                assert(es[i] == before[i]);
            }
        }
        lemma_flats_prefix(ys, zs, m);
        assert(xs.subrange(k, k + field_count(fs, n)) =~= xs.subrange(k, next) + xs.subrange(
            next,
            next + input_count(t),
        ));
    }
}

/// The scalars inside an input have the values of the variables that it is put
/// together from, in the order they are declared in.
pub proof fn law_input_scalars_mean(
    ty: TyView,
    name: Seq<char>,
    visibility: Option<u8>,
    pre: Option<PyTermView>,
    vars: Seq<TermView>,
    xs: Seq<ValueView>,
    env: Map<Seq<char>, ValueView>,
    p: int,
)
    requires
        declarable(ty, None),
        fields_sorted(ty),
        indexable(ty_sort(declared_ty(ty), p), p),
        have_values(vars, xs, env),
        xs.len() == input_count(ty),
        values_match(xs, 0, input_vars(ty, name, visibility, pre, p)),
    ensures
        have_values(
            scalars(assembled(ty, vars, 0, p).value.term, ty_sort(declared_ty(ty), p), p),
            xs,
            env,
        ),
{
    let t = assembled(ty, vars, 0, p).value.term;
    let s = ty_sort(declared_ty(ty), p);
    lemma_input_made_of(ty, name, visibility, pre, vars, xs, 0, env, p);
    assert(xs.subrange(0, xs.len() as int) =~= xs);
    law_scalars_mean(t, s, eval(t, env)->0, env, p);
}

} // verus!
