//! How the inputs of a type follow from those of its parts.
use crate::arrays::{array_size, array_value};
use crate::error::ErrorView;
use crate::integer::radix_text;
use crate::ir::{SortView, TermView};
use crate::meaning_inputs::{fields_sorted, lemma_assembled_sort};
use crate::names::{law_by_name_keeps_ordered, name_lt};
use crate::pyterm::{class_value, elem, elem_scalars, py, scalars, unwrapped, PyTermView};
use crate::python::{
    assembled, assembled_class, assembled_elems, assembled_fields, assembled_values, declarable,
    declared_fields, declared_ty, elem_count, elem_vars, field_count, field_name_text, field_vars,
    fields_declarable, idx_name_text, input_count, input_vars,
    lemma_assembled_elems, lemma_assembled_fields, pre_elem, InputView,
};
use crate::ty::{ty_sort, TyView};
use vstd::prelude::*;

verus! {

/// Whether all variables are seen by the same party.
pub open spec fn all_seen_by(vs: Seq<InputView>, visibility: Option<u8>) -> bool {
    forall|i: int| 0 <= i < vs.len() ==> (#[trigger] vs[i]).visibility == visibility
}

proof fn lemma_all_seen_by_add(a: Seq<InputView>, b: Seq<InputView>, visibility: Option<u8>)
    requires
        all_seen_by(a, visibility),
        all_seen_by(b, visibility),
    ensures
        all_seen_by(a + b, visibility),
{
    let c = a + b;
    assert forall|i: int| 0 <= i < c.len() implies (#[trigger] c[i]).visibility == visibility by {
        if i < a.len() {
            assert(c[i] == a[i]);
        } else {
            assert(c[i] == b[i - a.len()]);
        }
    }
}

/// Every variable that an input is declared with, whatever its type, is seen
/// by the party that was asked for.
pub proof fn law_inputs_are_seen(
    ty: TyView,
    name: Seq<char>,
    visibility: Option<u8>,
    pre: Option<PyTermView>,
    p: int,
)
    ensures
        all_seen_by(input_vars(ty, name, visibility, pre, p), visibility),
    decreases ty, 0nat,
{
    match ty {
        TyView::Array(n, t) => {
            lemma_elems_are_seen(*t, name, visibility, pre, n, p);
        },
        TyView::DataClass(_, fs) => {
            lemma_fields_are_seen(fs, name, visibility, fs.len(), p);
        },
        _ => {},
    }
}

proof fn lemma_elems_are_seen(
    t: TyView,
    name: Seq<char>,
    visibility: Option<u8>,
    pre: Option<PyTermView>,
    n: nat,
    p: int,
)
    ensures
        all_seen_by(elem_vars(t, name, visibility, pre, n, p), visibility),
    decreases t, n,
{
    if n > 0 {
        let m = (n - 1) as nat;
        lemma_elems_are_seen(t, name, visibility, pre, m, p);
        law_inputs_are_seen(t, idx_name_text(name, m), visibility, pre_elem(pre, n - 1, p), p);
        lemma_all_seen_by_add(
            elem_vars(t, name, visibility, pre, m, p),
            input_vars(t, idx_name_text(name, m), visibility, pre_elem(pre, n - 1, p), p),
            visibility,
        );
    }
}

proof fn lemma_fields_are_seen(
    fs: Seq<(Seq<char>, TyView)>,
    name: Seq<char>,
    visibility: Option<u8>,
    n: nat,
    p: int,
)
    requires
        n <= fs.len(),
    ensures
        all_seen_by(field_vars(fs, name, visibility, n, p), visibility),
    decreases fs, n,
{
    if n > 0 {
        let m = (n - 1) as nat;
        let inner = field_name_text(name, fs[n - 1].0);
        lemma_fields_are_seen(fs, name, visibility, m, p);
        law_inputs_are_seen(fs[n - 1].1, inner, visibility, None, p);
        lemma_all_seen_by_add(
            field_vars(fs, name, visibility, m, p),
            input_vars(fs[n - 1].1, inner, visibility, None, p),
            visibility,
        );
    }
}

/// A scalar input is one variable: with the name of the input, of the sort of
/// its type, and computed from what the input is computed from.
pub proof fn law_scalar_input(
    ty: TyView,
    name: Seq<char>,
    visibility: Option<u8>,
    pre: Option<PyTermView>,
    p: int,
)
    requires
        ty is Field || ty is Bool || ty is Uint,
    ensures
        input_vars(ty, name, visibility, pre, p).len() == 1,
        input_vars(ty, name, visibility, pre, p)[0].name == name,
        input_vars(ty, name, visibility, pre, p)[0].sort == match ty {
            TyView::Uint(w) => SortView::BitVector(w),
            TyView::Bool => SortView::Bool,
            _ => SortView::Field(p),
        },
        input_vars(ty, name, visibility, pre, p)[0].visibility == visibility,
        match input_vars(ty, name, visibility, pre, p)[0].precompute {
            Some(t) => pre is Some && t == pre->0.term,
            None => pre is None,
        },
        input_count(ty) == 1,
{
}

/// An array of one more element has the variables of the shorter one, and then
/// those of the element, which is called by its place and computed from the
/// element at that place.
pub proof fn law_array_inputs(
    n: nat,
    t: TyView,
    name: Seq<char>,
    visibility: Option<u8>,
    pre: Option<PyTermView>,
    p: int,
)
    requires
        pre matches Some(a) ==> array_size(a.ty) is Some,
    ensures
        input_vars(TyView::Array(0, Box::new(t)), name, visibility, pre, p).len() == 0,
        input_vars(TyView::Array(n + 1, Box::new(t)), name, visibility, pre, p) == input_vars(
            TyView::Array(n, Box::new(t)),
            name,
            visibility,
            pre,
            p,
        ) + input_vars(
            t,
            name + seq!['.'] + radix_text(n, 10),
            visibility,
            match pre {
                Some(a) => Some(unwrapped(a, p)->Ok_0[n as int]),
                None => None,
            },
            p,
        ),
        input_count(TyView::Array(n, Box::new(t))) == n * input_count(t),
{
    reveal_strlit(".");
    assert("."@ =~= seq!['.']);
    lemma_elem_count(t, n);
}

proof fn lemma_elem_count(t: TyView, n: nat)
    ensures
        elem_count(t, n) == n * input_count(t),
    decreases n,
{
    let c = input_count(t);
    if n > 0 {
        lemma_elem_count(t, (n - 1) as nat);
        assert(n * c == (n - 1) * c + c) by (nonlinear_arith);
    } else {
        assert(0 * c == 0);
    }
}

/// The variables of a mutable array are those of an array of field elements of
/// its size.
pub proof fn law_mut_array_inputs(
    n: nat,
    name: Seq<char>,
    visibility: Option<u8>,
    pre: Option<PyTermView>,
    p: int,
)
    ensures
        input_vars(TyView::MutArray(n), name, visibility, pre, p) == input_vars(
            TyView::Array(n, Box::new(TyView::Field)),
            name,
            visibility,
            pre,
            p,
        ),
        input_count(TyView::MutArray(n)) == n,
    decreases n,
{
    let short = TyView::Array((n - 1) as nat, Box::new(TyView::Field));
    let whole = TyView::Array(n, Box::new(TyView::Field));
    if n > 0 {
        let m = (n - 1) as nat;
        law_mut_array_inputs(m, name, visibility, pre, p);
        let last = input_vars(
            TyView::Field,
            idx_name_text(name, m),
            visibility,
            pre_elem(pre, n - 1, p),
            p,
        );
        assert(input_vars(whole, name, visibility, pre, p) == input_vars(
            short,
            name,
            visibility,
            pre,
            p,
        ) + last);
        assert(input_vars(TyView::MutArray(n), name, visibility, pre, p) =~= input_vars(
            TyView::MutArray(m),
            name,
            visibility,
            pre,
            p,
        ) + last);
    } else {
        assert(input_vars(TyView::MutArray(n), name, visibility, pre, p) =~= input_vars(
            whole,
            name,
            visibility,
            pre,
            p,
        ));
    }
}

proof fn lemma_field_vars_prefix(
    fs: Seq<(Seq<char>, TyView)>,
    f: (Seq<char>, TyView),
    name: Seq<char>,
    visibility: Option<u8>,
    n: nat,
    p: int,
)
    requires
        n <= fs.len(),
    ensures
        field_vars(fs.push(f), name, visibility, n, p) == field_vars(fs, name, visibility, n, p),
        field_count(fs.push(f), n) == field_count(fs, n),
    decreases n,
{
    if n > 0 {
        lemma_field_vars_prefix(fs, f, name, visibility, (n - 1) as nat, p);
        assert(fs.push(f)[n - 1] == fs[n - 1]);
    }
}

/// A class with one more field has the variables of the smaller one, and then
/// those of the field, which is called by its name and computed from nothing.
pub proof fn law_class_inputs(
    class_name: Seq<char>,
    fs: Seq<(Seq<char>, TyView)>,
    f: (Seq<char>, TyView),
    name: Seq<char>,
    visibility: Option<u8>,
    pre: Option<PyTermView>,
    p: int,
)
    ensures
        input_vars(TyView::DataClass(class_name, Seq::empty()), name, visibility, pre, p).len()
            == 0,
        input_vars(TyView::DataClass(class_name, fs.push(f)), name, visibility, pre, p)
            == input_vars(TyView::DataClass(class_name, fs), name, visibility, pre, p)
            + input_vars(f.1, name + seq!['.'] + f.0, visibility, None, p),
        input_count(TyView::DataClass(class_name, fs.push(f))) == input_count(
            TyView::DataClass(class_name, fs),
        ) + input_count(f.1),
{
    reveal_strlit(".");
    assert("."@ =~= seq!['.']);
    lemma_field_vars_prefix(fs, f, name, visibility, fs.len(), p);
    let gs = fs.push(f);
    assert(gs[gs.len() - 1] == f);
}

/// Whether variables are computed from terms, one for one.
pub open spec fn computed_from(vs: Seq<InputView>, ts: Seq<TermView>) -> bool {
    &&& vs.len() == ts.len()
    &&& forall|i: int| 0 <= i < vs.len() ==> (#[trigger] vs[i]).precompute == Some(ts[i])
}

proof fn lemma_computed_from_add(
    a: Seq<InputView>,
    b: Seq<InputView>,
    ts: Seq<TermView>,
    us: Seq<TermView>,
)
    requires
        computed_from(a, ts),
        computed_from(b, us),
    ensures
        computed_from(a + b, ts + us),
{
    let c = a + b;
    let vs = ts + us;
    assert forall|i: int| 0 <= i < c.len() implies (#[trigger] c[i]).precompute == Some(vs[i]) by {
        if i < a.len() {
            assert(c[i] == a[i]);
        } else {
            assert(c[i] == b[i - a.len()]);
        }
    }
}

/// Whether there is no class in a type.
pub open spec fn no_class(ty: TyView) -> bool
    decreases ty,
{
    match ty {
        TyView::Array(_, t) => no_class(*t),
        TyView::DataClass(_, _) => false,
        _ => true,
    }
}

/// The variables of an input that is computed from a value of its type are
/// computed from the scalars inside that value, in order.
pub proof fn law_inputs_are_computed(
    a: PyTermView,
    name: Seq<char>,
    visibility: Option<u8>,
    p: int,
)
    requires
        no_class(a.ty),
    ensures
        computed_from(
            input_vars(a.ty, name, visibility, Some(a), p),
            scalars(a.term, ty_sort(a.ty, p), p),
        ),
    decreases a.ty, 0nat,
{
    match a.ty {
        TyView::Array(n, t) => {
            lemma_elems_are_computed(a, *t, name, visibility, n, n, p);
        },
        TyView::MutArray(n) => {
            law_mut_array_inputs(n, name, visibility, Some(a), p);
            lemma_elems_of_mut(a, name, visibility, n, n, p);
            reveal_with_fuel(ty_sort, 2);
        },
        _ => {},
    }
}

proof fn lemma_elems_are_computed(
    a: PyTermView,
    t: TyView,
    name: Seq<char>,
    visibility: Option<u8>,
    m: nat,
    n: nat,
    p: int,
)
    requires
        a.ty == TyView::Array(n, Box::new(t)),
        no_class(t),
        m <= n,
    ensures
        computed_from(
            elem_vars(t, name, visibility, Some(a), m, p),
            elem_scalars(a.term, ty_sort(t, p), m, p),
        ),
    decreases t, m,
{
    if m > 0 {
        let k = (m - 1) as nat;
        let e = py(t, elem(a.term, m - 1, p));
        lemma_elems_are_computed(a, t, name, visibility, k, n, p);
        assert(pre_elem(Some(a), m - 1, p) == Some(e));
        law_inputs_are_computed(e, idx_name_text(name, k), visibility, p);
        lemma_computed_from_add(
            elem_vars(t, name, visibility, Some(a), k, p),
            input_vars(t, idx_name_text(name, k), visibility, Some(e), p),
            elem_scalars(a.term, ty_sort(t, p), k, p),
            scalars(e.term, ty_sort(t, p), p),
        );
    }
}

proof fn lemma_elems_of_mut(
    a: PyTermView,
    name: Seq<char>,
    visibility: Option<u8>,
    m: nat,
    n: nat,
    p: int,
)
    requires
        a.ty == TyView::MutArray(n),
        m <= n,
    ensures
        computed_from(
            elem_vars(TyView::Field, name, visibility, Some(a), m, p),
            elem_scalars(a.term, SortView::Field(p), m, p),
        ),
    decreases m,
{
    if m > 0 {
        let k = (m - 1) as nat;
        let e = py(TyView::Field, elem(a.term, m - 1, p));
        lemma_elems_of_mut(a, name, visibility, k, n, p);
        assert(pre_elem(Some(a), m - 1, p) == Some(e));
        let last = input_vars(TyView::Field, idx_name_text(name, k), visibility, Some(e), p);
        assert(scalars(e.term, SortView::Field(p), p) =~= seq![e.term]);
        lemma_computed_from_add(
            elem_vars(TyView::Field, name, visibility, Some(a), k, p),
            last,
            elem_scalars(a.term, SortView::Field(p), k, p),
            scalars(e.term, SortView::Field(p), p),
        );
    }
}

/// What can be declared follows from the parts of a type: scalars can, arrays
/// of at least one element whose elements can, and classes whose fields can.
/// An array is computed from one of its size, a class only where it has no
/// fields.
pub proof fn law_declarable(
    ty: TyView,
    n: nat,
    class_name: Seq<char>,
    fs: Seq<(Seq<char>, TyView)>,
    pre: Option<TyView>,
    u: TyView,
)
    ensures
        ty is Field || ty is Bool || ty is Uint ==> declarable(ty, pre),
        declarable(TyView::Array(n, Box::new(ty)), None) <==> n > 0 && declarable(ty, None),
        declarable(TyView::Array(n, Box::new(ty)), Some(u)) <==> n > 0 && array_size(u) == Some(n)
            && declarable(
            ty,
            Some(
                match u {
                    TyView::Array(_, t) => *t,
                    _ => TyView::Field,
                },
            ),
        ),
        declarable(TyView::MutArray(n), pre) <==> declarable(
            TyView::Array(n, Box::new(TyView::Field)),
            pre,
        ),
        declarable(TyView::DataClass(class_name, fs), None) <==> forall|i: int|
            0 <= i < fs.len() ==> declarable((#[trigger] fs[i]).1, None),
        declarable(TyView::DataClass(class_name, fs), Some(u)) <==> fs.len() == 0,
{
    reveal_with_fuel(declarable, 2);
    assert(declarable(TyView::DataClass(class_name, fs), None) <==> fields_declarable(fs));
}

/// An input of an array type is what `array` makes of the inputs of its
/// elements, each put together from the variables after those of the one
/// before.
pub proof fn law_array_input_is_array(n: nat, t: TyView, vars: Seq<TermView>, k: int, p: int)
    requires
        n > 0,
        declarable(t, None),
        fields_sorted(t),
    ensures
        array_value(
            Seq::new(n, |i: int| assembled(t, vars, k + i * input_count(t), p).value),
            ty_sort(declared_ty(t), p),
            p,
        ) == Ok::<PyTermView, ErrorView>(
            assembled(TyView::Array(n, Box::new(t)), vars, k, p).value,
        ),
{
    let es = assembled_elems(t, vars, k, n, p);
    lemma_assembled_elems(t, vars, k, n, p);
    let ts = Seq::new(n, |i: int| assembled(t, vars, k + i * input_count(t), p).value);
    assert forall|i: int| 0 <= i < n implies #[trigger] es[i] == assembled(
        t,
        vars,
        k + i * input_count(t),
        p,
    ) by {
        lemma_elem_at(t, vars, k, n, i, p);
    }
    assert(assembled_values(es) =~= ts);
    lemma_assembled_sort(t, vars, k, p);
    assert(es[0] == assembled(t, vars, k, p)) by {
        assert(0 * input_count(t) == 0);
    }
    assert forall|i: int| 0 <= i < ts.len() implies #[trigger] ts[i].ty == ts[0].ty by {
        assert(es[i].value.ty == es[0].value.ty);
    }
}

proof fn lemma_elem_at(t: TyView, vars: Seq<TermView>, k: int, n: nat, i: int, p: int)
    requires
        0 <= i < n,
        declarable(t, None),
    ensures
        assembled_elems(t, vars, k, n, p).len() == n,
        assembled_elems(t, vars, k, n, p)[i] == assembled(t, vars, k + i * input_count(t), p),
    decreases n,
{
    lemma_assembled_elems(t, vars, k, n, p);
    lemma_assembled_elems(t, vars, k, (n - 1) as nat, p);
    if i < n - 1 {
        lemma_elem_at(t, vars, k, (n - 1) as nat, i, p);
    } else {
        lemma_elem_count(t, (n - 1) as nat);
    }
}

/// An input of a mutable array type is that of an array of field elements.
pub proof fn law_mut_array_input_is_array(n: nat, vars: Seq<TermView>, k: int, p: int)
    requires
        n > 0,
    ensures
        assembled(TyView::MutArray(n), vars, k, p).value == assembled(
            TyView::Array(n, Box::new(TyView::Field)),
            vars,
            k,
            p,
        ).value,
{
    law_array_input_is_array(n, TyView::Field, vars, k, p);
    let ts = Seq::new(
        n,
        |i: int| assembled(TyView::Field, vars, k + i * input_count(TyView::Field), p).value,
    );
    let us = Seq::new(n, |i: int| py(TyView::Field, vars[k + i]));
    assert forall|i: int| 0 <= i < n implies #[trigger] ts[i] == us[i] by {
        assert(i * input_count(TyView::Field) == i) by (nonlinear_arith)
            requires
                input_count(TyView::Field) == 1,
        ;
    }
    assert(ts =~= us);
    assert(ty_sort(declared_ty(TyView::Field), p) == SortView::Field(p));
}

/// A scalar input is its variable, with its type.
pub proof fn law_scalar_input_is_variable(ty: TyView, vars: Seq<TermView>, k: int, p: int)
    requires
        ty is Field || ty is Bool || ty is Uint,
    ensures
        assembled(ty, vars, k, p).value.ty == ty,
        assembled(ty, vars, k, p).value.term == vars[k],
{
}

/// An input of a class type is what `new_class` makes of the inputs of its
/// fields, each put together from the variables after those of the one before.
pub proof fn law_class_input_is_new_class(
    class_name: Seq<char>,
    fs: Seq<(Seq<char>, TyView)>,
    vars: Seq<TermView>,
    k: int,
    p: int,
)
    requires
        declarable(TyView::DataClass(class_name, fs), None),
    ensures
        assembled(TyView::DataClass(class_name, fs), vars, k, p).value == class_value(
            class_name,
            Seq::new(
                fs.len(),
                |i: int|
                    (
                        fs[i].0,
                        assembled(
                            fs[i].1,
                            vars,
                            k + input_count(TyView::DataClass(class_name, fs.take(i))),
                            p,
                        ).value,
                    ),
            ),
        ),
{
    reveal_with_fuel(declarable, 2);
    assert(fields_declarable(fs));
    let es = assembled_fields(fs, vars, k, fs.len(), p);
    lemma_assembled_fields(fs, vars, k, fs.len(), p);
    let named = Seq::new(
        fs.len(),
        |i: int|
            (
                fs[i].0,
                assembled(
                    fs[i].1,
                    vars,
                    k + input_count(TyView::DataClass(class_name, fs.take(i))),
                    p,
                ).value,
            ),
    );
    assert forall|i: int| 0 <= i < fs.len() implies #[trigger] assembled_class(fs, es)[i]
        == named[i] by {
        lemma_field_at(fs, vars, k, fs.len(), i, p);
        lemma_field_count_take(fs, i as nat);
        assert(fs.take(i).len() == i);
    }
    assert(assembled_class(fs, es) =~= named);
}

proof fn lemma_field_count_take(fs: Seq<(Seq<char>, TyView)>, n: nat)
    requires
        n <= fs.len(),
    ensures
        field_count(fs.take(n as int), n) == field_count(fs, n),
    decreases n,
{
    if n > 0 {
        let m = (n - 1) as nat;
        lemma_field_count_take(fs, m);
        let short = fs.take(m as int);
        assert(fs.take(n as int) =~= short.push(fs[n - 1]));
        lemma_field_vars_prefix(short, fs[n - 1], Seq::empty(), None, m, 0);
    }
}

proof fn lemma_field_at(
    fs: Seq<(Seq<char>, TyView)>,
    vars: Seq<TermView>,
    k: int,
    n: nat,
    i: int,
    p: int,
)
    requires
        0 <= i < n <= fs.len(),
        fields_declarable(fs),
    ensures
        assembled_fields(fs, vars, k, n, p).len() == n,
        assembled_fields(fs, vars, k, n, p)[i] == assembled(
            fs[i].1,
            vars,
            k + field_count(fs, i as nat),
            p,
        ),
    decreases n,
{
    lemma_assembled_fields(fs, vars, k, n, p);
    lemma_assembled_fields(fs, vars, k, (n - 1) as nat, p);
    if i < n - 1 {
        lemma_field_at(fs, vars, k, (n - 1) as nat, i, p);
    }
}

/// The type that an input has follows from its parts: mutable arrays become
/// arrays of field elements, everything else stays.
pub proof fn law_declared_parts(
    ty: TyView,
    n: nat,
    class_name: Seq<char>,
    fs: Seq<(Seq<char>, TyView)>,
    i: int,
)
    requires
        fields_sorted(TyView::DataClass(class_name, fs)),
        0 <= i < fs.len(),
    ensures
        ty is Field || ty is Bool || ty is Uint ==> declared_ty(ty) == ty,
        declared_ty(TyView::Array(n, Box::new(ty))) == TyView::Array(
            n,
            Box::new(declared_ty(ty)),
        ),
        declared_ty(TyView::MutArray(n)) == TyView::Array(n, Box::new(TyView::Field)),
        ({
            let d = declared_ty(TyView::DataClass(class_name, fs));
            &&& d is DataClass
            &&& d->DataClass_0 == class_name
            &&& d->DataClass_1.len() == fs.len()
            &&& d->DataClass_1[i].0 == fs[i].0
            &&& d->DataClass_1[i].1 == declared_ty(fs[i].1)
        }),
{
    let ds = declared_fields(fs);
    assert forall|x: int, y: int| 0 <= x < y < ds.len() implies !name_lt(
        #[trigger] ds[y].0,
        #[trigger] ds[x].0,
    ) by {
        assert(!name_lt(fs[y].0, fs[x].0));
    }
    law_by_name_keeps_ordered(ds);
}

} // verus!
