//! Inputs are well typed, and their variables are the scalars of their type.
use crate::ir::{node1, OpView, SortView, TermView};
use crate::names::{by_name, names_distinct};
use crate::pyterm::{
    class_slots, component_scalars, elem, elem_scalars, field_tys, lemma_class_slots, py, scalars,
    PyTermView,
};
use crate::python::{
    assembled, assembled_class, assembled_elems, assembled_fields, assembled_values, declarable,
    declared_fields, declared_ty, elem_vars, field_name_text, field_vars, fields_declarable,
    idx_name_text, input_count, input_vars, lemma_assembled, lemma_assembled_elems,
    lemma_assembled_fields, lemma_elem_vars_count, lemma_field_vars_count, lemma_input_vars_count,
    next_after, pre_elem, scalar_input, InputView,
};
use crate::ty::{field_sorts, ty_sort, TyView};
use crate::typed_data::{law_array_is_typed, law_class_is_typed, lemma_elem_sort};
use crate::typing::{lemma_sort_of1, sort_of, well_typed};
use vstd::prelude::*;

verus! {

/// Whether terms have the sorts of variables, one for one.
pub open spec fn sorts_match(ts: Seq<TermView>, vs: Seq<InputView>) -> bool {
    &&& ts.len() == vs.len()
    &&& forall|i: int| 0 <= i < ts.len() ==> sort_of(#[trigger] ts[i]) == Some(vs[i].sort)
}

proof fn lemma_sorts_match_add(
    a: Seq<TermView>,
    b: Seq<TermView>,
    vs: Seq<InputView>,
    ws: Seq<InputView>,
)
    requires
        sorts_match(a, vs),
        sorts_match(b, ws),
    ensures
        sorts_match(a + b, vs + ws),
{
    let ts = a + b;
    let us = vs + ws;
    assert forall|i: int| 0 <= i < ts.len() implies sort_of(#[trigger] ts[i]) == Some(
        us[i].sort,
    ) by {
        if i < a.len() {
            assert(ts[i] == a[i]);
        } else {
            assert(ts[i] == b[i - a.len()]);
        }
    }
}

/// The scalars inside a well-typed value are one for one of the sorts of the
/// variables that an input of its type is declared with.
pub proof fn law_scalars_match_inputs(
    t: PyTermView,
    name: Seq<char>,
    visibility: Option<u8>,
    pre: Option<PyTermView>,
    p: int,
)
    requires
        p > 0,
        well_typed(t, p),
    ensures
        sorts_match(
            scalars(t.term, ty_sort(t.ty, p), p),
            input_vars(t.ty, name, visibility, pre, p),
        ),
        scalars(t.term, ty_sort(t.ty, p), p).len() == input_count(t.ty),
    decreases t.ty, 0nat,
{
    lemma_input_vars_count(t.ty, name, visibility, pre, p);
    match t.ty {
        TyView::Array(n, b) => {
            lemma_elem_scalars_match(t.term, *b, name, visibility, pre, n, n, p);
        },
        TyView::MutArray(n) => {
            lemma_mut_scalars_match(t.term, name, visibility, pre, n, n, p);
        },
        TyView::DataClass(_, fs) => {
            lemma_field_scalars_match(t.term, fs, name, visibility, fs.len(), p);
        },
        _ => {},
    }
}

proof fn lemma_elem_scalars_match(
    t: TermView,
    b: TyView,
    name: Seq<char>,
    visibility: Option<u8>,
    pre: Option<PyTermView>,
    m: nat,
    n: nat,
    p: int,
)
    requires
        p > 0,
        sort_of(t) == Some(
            SortView::Array(Box::new(SortView::Field(p)), Box::new(ty_sort(b, p)), n),
        ),
    ensures
        sorts_match(
            elem_scalars(t, ty_sort(b, p), m, p),
            elem_vars(b, name, visibility, pre, m, p),
        ),
    decreases b, m,
{
    if m > 0 {
        lemma_elem_scalars_match(t, b, name, visibility, pre, (m - 1) as nat, n, p);
        lemma_elem_sort(t, m - 1, ty_sort(b, p), n, p);
        law_scalars_match_inputs(
            py(b, elem(t, m - 1, p)),
            idx_name_text(name, (m - 1) as nat),
            visibility,
            pre_elem(pre, m - 1, p),
            p,
        );
        lemma_sorts_match_add(
            elem_scalars(t, ty_sort(b, p), (m - 1) as nat, p),
            scalars(elem(t, m - 1, p), ty_sort(b, p), p),
            elem_vars(b, name, visibility, pre, (m - 1) as nat, p),
            input_vars(
                b,
                idx_name_text(name, (m - 1) as nat),
                visibility,
                pre_elem(pre, m - 1, p),
                p,
            ),
        );
    }
}

proof fn lemma_mut_scalars_match(
    t: TermView,
    name: Seq<char>,
    visibility: Option<u8>,
    pre: Option<PyTermView>,
    m: nat,
    n: nat,
    p: int,
)
    requires
        p > 0,
        sort_of(t) == Some(
            SortView::Array(Box::new(SortView::Field(p)), Box::new(SortView::Field(p)), n),
        ),
    ensures
        sorts_match(
            elem_scalars(t, SortView::Field(p), m, p),
            input_vars(TyView::MutArray(m), name, visibility, pre, p),
        ),
    decreases m,
{
    if m > 0 {
        let before = (m - 1) as nat;
        lemma_mut_scalars_match(t, name, visibility, pre, before, n, p);
        lemma_elem_sort(t, m - 1, SortView::Field(p), n, p);
        let v = scalar_input(
            SortView::Field(p),
            idx_name_text(name, before),
            visibility,
            pre_elem(pre, m - 1, p),
        );
        lemma_sorts_match_add(
            elem_scalars(t, SortView::Field(p), before, p),
            seq![elem(t, m - 1, p)],
            input_vars(TyView::MutArray(before), name, visibility, pre, p),
            seq![v],
        );
        assert(scalars(elem(t, m - 1, p), SortView::Field(p), p) =~= seq![elem(t, m - 1, p)]);
        assert(input_vars(TyView::MutArray(m), name, visibility, pre, p) =~= input_vars(
            TyView::MutArray(before),
            name,
            visibility,
            pre,
            p,
        ) + seq![v]);
    }
}

proof fn lemma_field_scalars_match(
    t: TermView,
    fs: Seq<(Seq<char>, TyView)>,
    name: Seq<char>,
    visibility: Option<u8>,
    m: nat,
    p: int,
)
    requires
        p > 0,
        m <= fs.len(),
        sort_of(t) == Some(SortView::Tuple(field_sorts(fs, p))),
    ensures
        sorts_match(
            component_scalars(t, field_sorts(fs, p), m, p),
            field_vars(fs, name, visibility, m, p),
        ),
    decreases fs, m,
{
    if m > 0 {
        let ss = field_sorts(fs, p);
        let c = node1(OpView::Field((m - 1) as nat), t);
        lemma_field_scalars_match(t, fs, name, visibility, (m - 1) as nat, p);
        lemma_sort_of1(OpView::Field((m - 1) as nat), t, SortView::Tuple(ss));
        assert(ss[m - 1] == ty_sort(fs[m - 1].1, p));
        law_scalars_match_inputs(
            py(fs[m - 1].1, c),
            field_name_text(name, fs[m - 1].0),
            visibility,
            None,
            p,
        );
        lemma_sorts_match_add(
            component_scalars(t, ss, (m - 1) as nat, p),
            scalars(c, ss[m - 1], p),
            field_vars(fs, name, visibility, (m - 1) as nat, p),
            input_vars(
                fs[m - 1].1,
                field_name_text(name, fs[m - 1].0),
                visibility,
                None,
                p,
            ),
        );
    }
}

/// Whether no class inside a type has two fields with one name.
pub open spec fn fields_unambiguous(ty: TyView) -> bool
    decreases ty,
{
    match ty {
        TyView::Array(_, t) => fields_unambiguous(*t),
        TyView::DataClass(_, fs) => names_distinct(fs) && all_unambiguous(fs),
        _ => true,
    }
}

pub open spec fn all_unambiguous(fs: Seq<(Seq<char>, TyView)>) -> bool
    decreases fs,
{
    forall|i: int| 0 <= i < fs.len() ==> fields_unambiguous((#[trigger] fs[i]).1)
}

/// Whether the variables from the `k`th on have the sorts that an input is
/// declared with.
pub open spec fn vars_match(vars: Seq<TermView>, k: int, vs: Seq<InputView>) -> bool {
    0 <= k && k + vs.len() <= vars.len() && sorts_match(vars.subrange(k, k + vs.len()), vs)
}

proof fn lemma_vars_match_add(vars: Seq<TermView>, k: int, vs: Seq<InputView>, ws: Seq<InputView>)
    requires
        vars_match(vars, k, vs + ws),
    ensures
        vars_match(vars, k, vs),
        vars_match(vars, k + vs.len(), ws),
{
    let us = vs + ws;
    let all = vars.subrange(k, k + us.len());
    let a = vars.subrange(k, k + vs.len());
    let b = vars.subrange(k + vs.len(), k + vs.len() + ws.len());
    assert forall|i: int| 0 <= i < a.len() implies sort_of(#[trigger] a[i]) == Some(
        vs[i].sort,
    ) by {
        assert(a[i] == all[i]);
        assert(us[i] == vs[i]);
    }
    assert forall|i: int| 0 <= i < b.len() implies sort_of(#[trigger] b[i]) == Some(
        ws[i].sort,
    ) by {
        assert(b[i] == all[i + vs.len()]);
        assert(us[i + vs.len()] == ws[i]);
    }
}

/// An input put together from variables of the sorts it is declared with is
/// well typed.
pub proof fn law_inputs_are_typed(
    ty: TyView,
    name: Seq<char>,
    visibility: Option<u8>,
    pre: Option<PyTermView>,
    vars: Seq<TermView>,
    k: int,
    p: int,
)
    requires
        p > 0,
        declarable(ty, None),
        fields_unambiguous(ty),
        vars_match(vars, k, input_vars(ty, name, visibility, pre, p)),
    ensures
        well_typed(assembled(ty, vars, k, p).value, p),
        assembled(ty, vars, k, p).sort == ty_sort(declared_ty(ty), p),
    decreases ty, 0nat,
{
    lemma_assembled(ty, vars, k, p);
    let vs = input_vars(ty, name, visibility, pre, p);
    let part = vars.subrange(k, k + vs.len());
    match ty {
        TyView::Array(n, t) => {
            let es = assembled_elems(*t, vars, k, n, p);
            lemma_assembled_elems(*t, vars, k, n, p);
            lemma_elems_typed(*t, name, visibility, pre, vars, k, n, p);
            let ts = assembled_values(es);
            assert forall|i: int| 0 <= i < ts.len() implies well_typed(#[trigger] ts[i], p)
                && ts[i].ty == declared_ty(*t) by {
                assert(well_typed(es[i].value, p));
                assert(es[i].value.ty == declared_ty(*t));
            }
            assert(es[0].sort == ty_sort(declared_ty(*t), p));
            assert(well_typed(ts[0], p));
            law_array_is_typed(ts, es[0].sort, p);
            reveal_with_fuel(ty_sort, 2);
        },
        TyView::MutArray(n) => {
            let ts = Seq::new(n, |i: int| py(TyView::Field, vars[k + i]));
            assert forall|i: int| 0 <= i < ts.len() implies well_typed(#[trigger] ts[i], p) by {
                assert(part[i] == vars[k + i]);
                assert(sort_of(part[i]) == Some(vs[i].sort));
            }
            assert(well_typed(ts[0], p));
            law_array_is_typed(ts, SortView::Field(p), p);
            reveal_with_fuel(ty_sort, 2);
        },
        TyView::DataClass(n, fs) => {
            let es = assembled_fields(fs, vars, k, fs.len(), p);
            let named = assembled_class(fs, es);
            lemma_assembled_fields(fs, vars, k, fs.len(), p);
            lemma_fields_typed(fs, name, visibility, vars, k, fs.len(), p);
            assert forall|i: int, j: int| 0 <= i < j < named.len() implies #[trigger] named[i].0
                != #[trigger] named[j].0 by {
                assert(fs[i].0 != fs[j].0);
            }
            assert forall|i: int| 0 <= i < named.len() implies well_typed(
                (#[trigger] named[i]).1,
                p,
            ) by {
                assert(well_typed(es[i].value, p));
            }
            law_class_is_typed(n, named, p);
            lemma_class_slots(named);
            assert(field_tys(named) =~= declared_fields(fs));
            let order = by_name(declared_fields(fs));
            let ss = class_slots(named).map_values(|j: int| es[j].sort);
            assert forall|c: int| 0 <= c < ss.len() implies #[trigger] ss[c] == field_sorts(
                order,
                p,
            )[c] by {
                let j = class_slots(named)[c];
                assert(named[j].1 == es[j].value);
                assert(es[j].sort == ty_sort(declared_ty(fs[j].1), p));
            }
            assert(ss =~= field_sorts(order, p));
        },
        _ => {
            assert(part[0] == vars[k]);
            assert(sort_of(part[0]) == Some(vs[0].sort));
        },
    }
}

proof fn lemma_elems_typed(
    t: TyView,
    name: Seq<char>,
    visibility: Option<u8>,
    pre: Option<PyTermView>,
    vars: Seq<TermView>,
    k: int,
    n: nat,
    p: int,
)
    requires
        p > 0,
        declarable(t, None),
        fields_unambiguous(t),
        vars_match(vars, k, elem_vars(t, name, visibility, pre, n, p)),
    ensures
        forall|i: int|
            0 <= i < n ==> well_typed(
                (#[trigger] assembled_elems(t, vars, k, n, p)[i]).value,
                p,
            ) && assembled_elems(t, vars, k, n, p)[i].sort == ty_sort(declared_ty(t), p),
    decreases t, n,
{
    if n > 0 {
        let m = (n - 1) as nat;
        let es = assembled_elems(t, vars, k, m, p);
        let inner = idx_name_text(name, m);
        let inner_pre = pre_elem(pre, n - 1, p);
        let before = elem_vars(t, name, visibility, pre, m, p);
        lemma_vars_match_add(vars, k, before, input_vars(t, inner, visibility, inner_pre, p));
        lemma_elems_typed(t, name, visibility, pre, vars, k, m, p);
        lemma_assembled_elems(t, vars, k, m, p);
        lemma_elem_vars_count(t, name, visibility, pre, m, p);
        law_inputs_are_typed(t, inner, visibility, inner_pre, vars, next_after(es, k), p);
    }
}

proof fn lemma_fields_typed(
    fs: Seq<(Seq<char>, TyView)>,
    name: Seq<char>,
    visibility: Option<u8>,
    vars: Seq<TermView>,
    k: int,
    n: nat,
    p: int,
)
    requires
        p > 0,
        n <= fs.len(),
        fields_declarable(fs),
        all_unambiguous(fs),
        vars_match(vars, k, field_vars(fs, name, visibility, n, p)),
    ensures
        forall|i: int|
            0 <= i < n ==> well_typed(
                (#[trigger] assembled_fields(fs, vars, k, n, p)[i]).value,
                p,
            ) && assembled_fields(fs, vars, k, n, p)[i].sort == ty_sort(declared_ty(fs[i].1), p),
    decreases fs, n,
{
    if n > 0 {
        let m = (n - 1) as nat;
        let es = assembled_fields(fs, vars, k, m, p);
        let inner = field_name_text(name, fs[n - 1].0);
        let before = field_vars(fs, name, visibility, m, p);
        lemma_vars_match_add(
            vars,
            k,
            before,
            input_vars(fs[n - 1].1, inner, visibility, None, p),
        );
        lemma_fields_typed(fs, name, visibility, vars, k, m, p);
        lemma_assembled_fields(fs, vars, k, m, p);
        lemma_field_vars_count(fs, name, visibility, m, p);
        assert(declarable(fs[n - 1].1, None));
        assert(fields_unambiguous(fs[n - 1].1));
        law_inputs_are_typed(fs[n - 1].1, inner, visibility, None, vars, next_after(es, k), p);
    }
}

} // verus!
