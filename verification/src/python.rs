//! The embedding of Python: inputs, choices and starting values.
use crate::arrays::{array, array_size, array_value};
use crate::error::ErrorView;
use crate::field::Cfg;
use crate::input_laws::law_inputs_are_seen;
use crate::integer::decimal;
use crate::ir::{
    default_field_sort, default_value, leaf, node3, sorts_view, terms_view, OpView, Sort, SortView,
    Term, TermView,
};
use crate::names::by_name;
use crate::ops::ite;
use crate::pyterm::{
    class_slots, class_value, class_with_slots, field_tys, named_pys, py, pys_view, unwrapped,
    PyTerm, PyTermView,
};
use crate::ty::{decimal_text, ty_sort, Ty, TyView};
use vstd::prelude::*;

verus! {

/// A variable to declare: its name, its sort, who sees it, and the term that
/// it can be computed from.
#[derive(Debug)]
pub struct Input {
    pub name: String,
    pub sort: Sort,
    pub visibility: Option<u8>,
    pub precompute: Option<Term>,
}

/// What an `Input` is.
pub struct InputView {
    pub name: Seq<char>,
    pub sort: SortView,
    pub visibility: Option<u8>,
    pub precompute: Option<TermView>,
}

impl View for Input {
    type V = InputView;

    open spec fn view(&self) -> InputView {
        InputView {
            name: self.name@,
            sort: self.sort@,
            visibility: self.visibility,
            precompute: match self.precompute {
                Some(t) => Some(t@),
                None => None,
            },
        }
    }
}

/// The views of variables to declare.
pub open spec fn inputs_view(is: Seq<Input>) -> Seq<InputView> {
    Seq::new(is.len(), |i: int| is[i]@)
}

/// The view of a value that may be there.
pub open spec fn pre_view(pre: Option<PyTerm>) -> Option<PyTermView> {
    match pre {
        Some(t) => Some(t@),
        None => None,
    }
}

/// The type of a value that may be there.
pub open spec fn pre_ty(pre: Option<PyTermView>) -> Option<TyView> {
    match pre {
        Some(t) => Some(t.ty),
        None => None,
    }
}

/// The view of a type that may be there.
pub open spec fn pre_ty_view(pre: Option<&Ty>) -> Option<TyView> {
    match pre {
        Some(t) => Some(t@),
        None => None,
    }
}

/// The name of a class's field.
pub open spec fn field_name_text(class_name: Seq<char>, field_name: Seq<char>) -> Seq<char> {
    class_name + "."@ + field_name
}

/// The name of an array's element.
pub open spec fn idx_name_text(array_name: Seq<char>, idx: nat) -> Seq<char> {
    array_name + "."@ + decimal_text(idx)
}

/// Whether inputs of a type can be declared, where they are computed from
/// values of the type `pre`, if any: no array is empty, each array is computed
/// from one of its size, and nothing in a class is computed.
pub open spec fn declarable(ty: TyView, pre: Option<TyView>) -> bool
    decreases ty,
{
    match ty {
        TyView::Array(n, t) => n > 0 && match pre {
            Some(TyView::Array(m, u)) => m == n && declarable(*t, Some(*u)),
            Some(TyView::MutArray(m)) => m == n && declarable(*t, Some(TyView::Field)),
            Some(_) => false,
            None => declarable(*t, None),
        },
        TyView::MutArray(n) => n > 0 && match pre {
            Some(u) => array_size(u) == Some(n),
            None => true,
        },
        TyView::DataClass(_, fs) => (pre is None || fs.len() == 0) && fields_declarable(fs),
        _ => true,
    }
}

pub open spec fn fields_declarable(fs: Seq<(Seq<char>, TyView)>) -> bool
    decreases fs,
{
    forall|i: int| 0 <= i < fs.len() ==> declarable((#[trigger] fs[i]).1, None)
}

/// What can be declared to be computed from some value can be declared without
/// it, so an input that was declared can be put together.
pub proof fn lemma_declarable_alone(ty: TyView, pre: Option<TyView>)
    requires
        declarable(ty, pre),
    ensures
        declarable(ty, None),
    decreases ty,
{
    match ty {
        TyView::Array(_, t) => match pre {
            Some(TyView::Array(_, u)) => {
                lemma_declarable_alone(*t, Some(*u));
            },
            Some(TyView::MutArray(_)) => {
                lemma_declarable_alone(*t, Some(TyView::Field));
            },
            _ => {},
        },
        _ => {},
    }
}

/// The element that the element `i` of an array is computed from.
pub open spec fn pre_elem(pre: Option<PyTermView>, i: int, p: int) -> Option<PyTermView> {
    match pre {
        Some(a) => match unwrapped(a, p) {
            Ok(ts) => Some(ts[i]),
            Err(_) => None,
        },
        None => None,
    }
}

/// The variable for a scalar.
pub open spec fn scalar_input(
    sort: SortView,
    name: Seq<char>,
    visibility: Option<u8>,
    pre: Option<PyTermView>,
) -> InputView {
    InputView {
        name,
        sort,
        visibility,
        precompute: match pre {
            Some(t) => Some(t.term),
            None => None,
        },
    }
}

/// The variables for an input of a type, in the order they are declared in.
pub open spec fn input_vars(
    ty: TyView,
    name: Seq<char>,
    visibility: Option<u8>,
    pre: Option<PyTermView>,
    p: int,
) -> Seq<InputView>
    decreases ty, 0nat,
{
    match ty {
        TyView::Array(n, t) => elem_vars(*t, name, visibility, pre, n, p),
        TyView::MutArray(n) => Seq::new(
            n,
            |i: int|
                scalar_input(
                    SortView::Field(p),
                    idx_name_text(name, i as nat),
                    visibility,
                    pre_elem(pre, i, p),
                ),
        ),
        TyView::DataClass(_, fs) => field_vars(fs, name, visibility, fs.len(), p),
        _ => seq![scalar_input(ty_sort(ty, p), name, visibility, pre)],
    }
}

/// The variables for the first `n` elements of an array.
pub open spec fn elem_vars(
    t: TyView,
    name: Seq<char>,
    visibility: Option<u8>,
    pre: Option<PyTermView>,
    n: nat,
    p: int,
) -> Seq<InputView>
    decreases t, n,
{
    if n == 0 {
        Seq::empty()
    } else {
        elem_vars(t, name, visibility, pre, (n - 1) as nat, p) + input_vars(
            t,
            idx_name_text(name, (n - 1) as nat),
            visibility,
            pre_elem(pre, n - 1, p),
            p,
        )
    }
}

/// The variables for the first `n` fields of a class.
pub open spec fn field_vars(
    fs: Seq<(Seq<char>, TyView)>,
    name: Seq<char>,
    visibility: Option<u8>,
    n: nat,
    p: int,
) -> Seq<InputView>
    decreases fs, n,
{
    if n == 0 || n > fs.len() {
        Seq::empty()
    } else {
        field_vars(fs, name, visibility, (n - 1) as nat, p) + input_vars(
            fs[n - 1].1,
            field_name_text(name, fs[n - 1].0),
            visibility,
            None,
            p,
        )
    }
}

fn field_name(class_name: &str, field: &str) -> (r: String)
    ensures
        r@ == field_name_text(class_name@, field@),
{
    let mut s = class_name.to_owned();
    s.append(".");
    s.append(field);
    s
}

fn idx_name(class_name: &str, idx: usize) -> (r: String)
    ensures
        r@ == idx_name_text(class_name@, idx as nat),
{
    let mut s = class_name.to_owned();
    s.append(".");
    s.append(decimal(idx).as_str());
    s
}

/// The embedding of Python.
#[derive(Debug)]
pub struct Python {}

impl Python {
    /// The embedding.
    pub fn new() -> (r: Self)
        ensures
            r == (Python {  }),
    {
        Python {  }
    }

    /// The variables to declare for an input of the given type, in order. Where
    /// `precompute` is given, they are computed from its scalars.
    pub fn declare_input(
        &self,
        ty: &Ty,
        name: String,
        visibility: Option<u8>,
        precompute: Option<PyTerm>,
        cfg: &Cfg,
    ) -> (r: Vec<Input>)
        requires
            declarable(ty@, pre_ty(pre_view(precompute))),
        ensures
            inputs_view(r@) == input_vars(ty@, name@, visibility, pre_view(precompute), cfg@),
            r@.len() == input_count(ty@),
            forall|i: int| 0 <= i < r@.len() ==> (#[trigger] r@[i]).visibility == visibility,
    {
        let mut out: Vec<Input> = Vec::new();
        push_inputs(ty, name, visibility, precompute, cfg, &mut out);
        assert(inputs_view(out@) =~= input_vars(
            ty@,
            name@,
            visibility,
            pre_view(precompute),
            cfg@,
        ));
        proof {
            lemma_input_vars_count(ty@, name@, visibility, pre_view(precompute), cfg@);
            assert(inputs_view(out@).len() == out@.len());
            law_inputs_are_seen(ty@, name@, visibility, pre_view(precompute), cfg@);
            assert forall|i: int| 0 <= i < out@.len() implies (#[trigger] out@[i]).visibility
                == visibility by {
                assert(inputs_view(out@)[i].visibility == visibility);
            }
        }
        out
    }

    /// Whether inputs of a type can be declared, where they are computed from
    /// a value of the type `pre`, if any.
    pub fn can_declare(&self, ty: &Ty, pre: Option<&Ty>) -> (r: bool)
        ensures
            r == declarable(ty@, pre_ty_view(pre)),
        decreases ty@,
    {
        match ty {
            Ty::Array(n, t) => {
                proof {
                    assert(decreases_to!(ty@ => ty@->Array_1));
                }
                *n > 0 && match pre {
                    Some(Ty::Array(m, u)) => *m == *n && self.can_declare(t, Some(&**u)),
                    Some(Ty::MutArray(m)) => *m == *n && self.can_declare(t, Some(&Ty::Field)),
                    Some(_) => false,
                    None => self.can_declare(t, None),
                }
            },
            Ty::MutArray(n) => *n > 0 && match pre {
                Some(Ty::Array(m, _)) => *m == *n,
                Some(Ty::MutArray(m)) => *m == *n,
                Some(_) => false,
                None => true,
            },
            Ty::DataClass(_, fs) => {
                let mut i: usize = 0;
                while i < fs.len()
                    invariant
                        ty@ matches TyView::DataClass(_, gs) && gs == fs@,
                        i <= fs@.len(),
                        forall|j: int|
                            0 <= j < i ==> declarable((#[trigger] fs@[j]).1, None),
                    decreases fs@.len() - i,
                {
                    let (_, t) = fs.get(i);
                    proof {
                        assert(decreases_to!(ty@ => ty@->DataClass_1));
                        assert(decreases_to!(fs@ => fs@[i as int]));
                    }
                    if !self.can_declare(t, None) {
                        assert(!fields_declarable(fs@)) by {
                            assert(!declarable(fs@[i as int].1, None));
                        }
                        return false;
                    }
                    i += 1;
                }
                assert(fields_declarable(fs@));
                pre.is_none() || fs.len() == 0
            },
            _ => true,
        }
    }

    /// One of two values of one type, as a condition is true or false.
    pub fn ite(&self, cond: Term, t: PyTerm, f: PyTerm) -> (r: PyTerm)
        requires
            t@.ty == f@.ty,
        ensures
            r@ == py(t@.ty, node3(OpView::Ite, cond@, t@.term, f@.term)),
    {
        match ite(cond, t, f) {
            Ok(r) => r,
            Err(_) => unreached(),
        }
    }

    /// The value of a variable of the given type that nothing was assigned to.
    pub fn create_uninit(&self, ty: &Ty, cfg: &Cfg) -> (r: PyTerm)
        ensures
            r@ == py(ty@, leaf(OpView::Const(default_value(ty_sort(ty@, cfg@))))),
    {
        ty.default(cfg)
    }

    /// What a function of the given return type gives before it returns.
    pub fn initialize_return(&self, ty: &Ty, cfg: &Cfg) -> (r: PyTerm)
        ensures
            r@ == py(ty@, leaf(OpView::Const(default_value(ty_sort(ty@, cfg@))))),
    {
        ty.default(cfg)
    }

    /// The mutable array that is a term of the given array sort.
    pub fn wrap_persistent_array(&self, t: Term, sort: &Sort) -> (r: PyTerm)
        requires
            sort@ is Array,
        ensures
            r@ == py(TyView::MutArray(sort@->Array_2), t@),
    {
        match sort {
            Sort::Array(_, _, size) => PyTerm::new(Ty::MutArray(*size), t),
            _ => unreached(),
        }
    }
}

fn push_scalar(
    sort: Sort,
    name: String,
    visibility: Option<u8>,
    precompute: Option<PyTerm>,
    out: &mut Vec<Input>,
)
    ensures
        inputs_view(final(out)@) == inputs_view(old(out)@).push(
            scalar_input(sort@, name@, visibility, pre_view(precompute)),
        ),
{
    let ghost want = scalar_input(sort@, name@, visibility, pre_view(precompute));
    let precompute: Option<Term> = match precompute {
        Some(p) => Some(p.term),
        None => None,
    };
    out.push(Input { name, sort, visibility, precompute });
    assert(inputs_view(out@) =~= inputs_view(old(out)@).push(want));
}

/// The elements of a value that may be there.
fn pre_elems(precompute: Option<PyTerm>, cfg: &Cfg) -> (r: Option<Vec<PyTerm>>)
    requires
        precompute matches Some(a) ==> array_size(a@.ty) is Some,
    ensures
        match (r, pre_view(precompute)) {
            (Some(ts), Some(a)) => unwrapped(a, cfg@) == Ok::<Seq<PyTermView>, ErrorView>(pys_view(ts@))
                && Some(ts@.len()) == array_size(a.ty),
            (None, None) => true,
            _ => false,
        },
{
    match precompute {
        Some(p) => match p.unwrap_array(cfg) {
            Ok(ts) => {
                assert(pys_view(ts@).len() == ts@.len());
                Some(ts)
            },
            Err(_) => None,
        },
        None => None,
    }
}

fn push_inputs(
    ty: &Ty,
    name: String,
    visibility: Option<u8>,
    precompute: Option<PyTerm>,
    cfg: &Cfg,
    out: &mut Vec<Input>,
)
    requires
        declarable(ty@, pre_ty(pre_view(precompute))),
    ensures
        inputs_view(final(out)@) == inputs_view(old(out)@) + input_vars(
            ty@,
            name@,
            visibility,
            pre_view(precompute),
            cfg@,
        ),
    decreases ty@,
{
    let ghost pre = pre_view(precompute);
    match ty {
        Ty::Bool => {
            push_scalar(Sort::Bool, name, visibility, precompute, out);
        },
        Ty::Field => {
            push_scalar(default_field_sort(cfg), name, visibility, precompute, out);
        },
        Ty::Uint(w) => {
            push_scalar(Sort::BitVector(*w), name, visibility, precompute, out);
        },
        Ty::Array(n, t) => {
            let ps = pre_elems(precompute, cfg);
            let mut i: usize = 0;
            assert(inputs_view(out@) =~= inputs_view(old(out)@) + elem_vars(
                t@,
                name@,
                visibility,
                pre,
                0,
                cfg@,
            ));
            while i < *n
                invariant
                    ty@ == TyView::Array(*n as nat, Box::new(t@)),
                    declarable(ty@, pre_ty(pre)),
                    i <= *n,
                    match (ps, pre) {
                        (Some(ts), Some(a)) => unwrapped(a, cfg@) == Ok::<Seq<PyTermView>, ErrorView>(
                            pys_view(ts@),
                        ) && Some(ts@.len()) == array_size(a.ty),
                        (None, None) => true,
                        _ => false,
                    },
                    inputs_view(out@) == inputs_view(old(out)@) + elem_vars(
                        t@,
                        name@,
                        visibility,
                        pre,
                        i as nat,
                        cfg@,
                    ),
                decreases *n - i,
            {
                let p: Option<PyTerm> = match &ps {
                    Some(ts) => Some(ts[i].clone()),
                    None => None,
                };
                proof {
                    assert(decreases_to!(ty@ => ty@->Array_1));
                    assert(pre_view(p) == pre_elem(pre, i as int, cfg@));
                }
                push_inputs(t, idx_name(name.as_str(), i), visibility, p, cfg, out);
                assert(inputs_view(out@) =~= inputs_view(old(out)@) + elem_vars(
                    t@,
                    name@,
                    visibility,
                    pre,
                    (i + 1) as nat,
                    cfg@,
                ));
                i += 1;
            }
        },
        Ty::MutArray(n) => {
            let ps = pre_elems(precompute, cfg);
            let ghost want = input_vars(ty@, name@, visibility, pre, cfg@);
            let mut i: usize = 0;
            assert(inputs_view(out@) =~= inputs_view(old(out)@) + want.take(0));
            while i < *n
                invariant
                    ty@ == TyView::MutArray(*n as nat),
                    i <= *n,
                    match (ps, pre) {
                        (Some(ts), Some(a)) => unwrapped(a, cfg@) == Ok::<Seq<PyTermView>, ErrorView>(
                            pys_view(ts@),
                        ) && ts@.len() == *n,
                        (None, None) => true,
                        _ => false,
                    },
                    want == input_vars(ty@, name@, visibility, pre, cfg@),
                    inputs_view(out@) == inputs_view(old(out)@) + want.take(i as int),
                decreases *n - i,
            {
                let p: Option<PyTerm> = match &ps {
                    Some(ts) => Some(ts[i].clone()),
                    None => None,
                };
                proof {
                    assert(pre_view(p) == pre_elem(pre, i as int, cfg@));
                }
                push_scalar(
                    default_field_sort(cfg),
                    idx_name(name.as_str(), i),
                    visibility,
                    p,
                    out,
                );
                assert(inputs_view(out@) =~= inputs_view(old(out)@) + want.take(i + 1));
                i += 1;
            }
            assert(want.take(*n as int) =~= want);
        },
        Ty::DataClass(_, fs) => {
            let mut i: usize = 0;
            assert(inputs_view(out@) =~= inputs_view(old(out)@) + field_vars(
                fs@,
                name@,
                visibility,
                0,
                cfg@,
            ));
            while i < fs.len()
                invariant
                    ty@ matches TyView::DataClass(_, gs) && gs == fs@,
                    fields_declarable(fs@),
                    i <= fs@.len(),
                    inputs_view(out@) == inputs_view(old(out)@) + field_vars(
                        fs@,
                        name@,
                        visibility,
                        i as nat,
                        cfg@,
                    ),
                decreases fs@.len() - i,
            {
                let (f_name, f_ty) = fs.get(i);
                proof {
                    assert(decreases_to!(ty@ => ty@->DataClass_1));
                    assert(decreases_to!(fs@ => fs@[i as int]));
                }
                push_inputs(
                    f_ty,
                    field_name(name.as_str(), f_name),
                    visibility,
                    None,
                    cfg,
                    out,
                );
                assert(inputs_view(out@) =~= inputs_view(old(out)@) + field_vars(
                    fs@,
                    name@,
                    visibility,
                    (i + 1) as nat,
                    cfg@,
                ));
                i += 1;
            }
        },
    }
}

/// The number of variables for an input of a type.
pub open spec fn input_count(ty: TyView) -> nat
    decreases ty, 0nat,
{
    match ty {
        TyView::Array(n, t) => elem_count(*t, n),
        TyView::MutArray(n) => n,
        TyView::DataClass(_, fs) => field_count(fs, fs.len()),
        _ => 1,
    }
}

/// The number of variables for `n` elements of a type.
pub open spec fn elem_count(t: TyView, n: nat) -> nat
    decreases t, n,
{
    if n == 0 {
        0
    } else {
        elem_count(t, (n - 1) as nat) + input_count(t)
    }
}

/// The number of variables for the first `n` fields of a class.
pub open spec fn field_count(fs: Seq<(Seq<char>, TyView)>, n: nat) -> nat
    decreases fs, n,
{
    if n == 0 || n > fs.len() {
        0
    } else {
        field_count(fs, (n - 1) as nat) + input_count(fs[n - 1].1)
    }
}

/// An input put together from variables: its value, the sort of its term, and
/// the first variable after it.
pub struct Assembled {
    pub value: PyTermView,
    pub sort: SortView,
    pub next: int,
}

/// The values of inputs.
pub open spec fn assembled_values(es: Seq<Assembled>) -> Seq<PyTermView> {
    Seq::new(es.len(), |i: int| es[i].value)
}

/// The values of a class's fields, with their names.
pub open spec fn assembled_class(fs: Seq<(Seq<char>, TyView)>, es: Seq<Assembled>) -> Seq<
    (Seq<char>, PyTermView),
> {
    Seq::new(es.len(), |i: int| (fs[i].0, es[i].value))
}

/// Where what follows some inputs starts.
pub open spec fn next_after(es: Seq<Assembled>, k: int) -> int {
    if es.len() == 0 {
        k
    } else {
        es.last().next
    }
}

/// The array of the given elements, which have one type.
pub open spec fn whole_array(ts: Seq<PyTermView>, sort: SortView, p: int) -> PyTermView {
    array_value(ts, sort, p)->Ok_0
}

/// The input of a type that is put together from the variables from the `k`th
/// on.
pub open spec fn assembled(ty: TyView, vars: Seq<TermView>, k: int, p: int) -> Assembled
    decreases ty, 0nat,
{
    match ty {
        TyView::Array(n, t) => {
            let es = assembled_elems(*t, vars, k, n, p);
            Assembled {
                value: whole_array(assembled_values(es), es[0].sort, p),
                sort: SortView::Array(
                    Box::new(SortView::Field(p)),
                    Box::new(es[0].sort),
                    n,
                ),
                next: next_after(es, k),
            }
        },
        TyView::MutArray(n) => Assembled {
            value: whole_array(
                Seq::new(n, |i: int| py(TyView::Field, vars[k + i])),
                SortView::Field(p),
                p,
            ),
            sort: SortView::Array(
                Box::new(SortView::Field(p)),
                Box::new(SortView::Field(p)),
                n,
            ),
            next: k + n,
        },
        TyView::DataClass(name, fs) => {
            let es = assembled_fields(fs, vars, k, fs.len(), p);
            let named = assembled_class(fs, es);
            Assembled {
                value: class_value(name, named),
                sort: SortView::Tuple(class_slots(named).map_values(|j: int| es[j].sort)),
                next: next_after(es, k),
            }
        },
        _ => Assembled { value: py(ty, vars[k]), sort: ty_sort(ty, p), next: k + 1 },
    }
}

/// The first `n` elements of an array.
pub open spec fn assembled_elems(t: TyView, vars: Seq<TermView>, k: int, n: nat, p: int) -> Seq<
    Assembled,
>
    decreases t, n,
{
    if n == 0 {
        Seq::empty()
    } else {
        let es = assembled_elems(t, vars, k, (n - 1) as nat, p);
        es.push(assembled(t, vars, next_after(es, k), p))
    }
}

/// The first `n` fields of a class.
pub open spec fn assembled_fields(
    fs: Seq<(Seq<char>, TyView)>,
    vars: Seq<TermView>,
    k: int,
    n: nat,
    p: int,
) -> Seq<Assembled>
    decreases fs, n,
{
    if n == 0 || n > fs.len() {
        Seq::empty()
    } else {
        let es = assembled_fields(fs, vars, k, (n - 1) as nat, p);
        es.push(assembled(fs[n - 1].1, vars, next_after(es, k), p))
    }
}

/// The type that an input of a type is declared with: a mutable array becomes
/// an array of field elements.
pub open spec fn declared_ty(ty: TyView) -> TyView
    decreases ty,
{
    match ty {
        TyView::Array(n, t) => TyView::Array(n, Box::new(declared_ty(*t))),
        TyView::MutArray(n) => TyView::Array(n, Box::new(TyView::Field)),
        TyView::DataClass(name, fs) => TyView::DataClass(name, by_name(declared_fields(fs))),
        _ => ty,
    }
}

pub open spec fn declared_fields(fs: Seq<(Seq<char>, TyView)>) -> Seq<(Seq<char>, TyView)>
    decreases fs,
{
    Seq::new(
        fs.len(),
        |i: int|
            if 0 <= i < fs.len() {
                (fs[i].0, declared_ty(fs[i].1))
            } else {
                arbitrary()
            },
    )
}

/// An input is put together with its declared type from as many variables as
/// are declared for it.
pub proof fn lemma_assembled(ty: TyView, vars: Seq<TermView>, k: int, p: int)
    requires
        declarable(ty, None),
    ensures
        assembled(ty, vars, k, p).next == k + input_count(ty),
        assembled(ty, vars, k, p).value.ty == declared_ty(ty),
    decreases ty, 0nat,
{
    match ty {
        TyView::Array(n, t) => {
            let es = assembled_elems(*t, vars, k, n, p);
            lemma_assembled_elems(*t, vars, k, n, p);
            let ts = assembled_values(es);
            assert forall|i: int| 0 <= i < ts.len() implies #[trigger] ts[i].ty == ts[0].ty by {
                assert(es[i].value.ty == es[0].value.ty);
            }
        },
        TyView::DataClass(name, fs) => {
            let es = assembled_fields(fs, vars, k, fs.len(), p);
            lemma_assembled_fields(fs, vars, k, fs.len(), p);
            assert(field_tys(assembled_class(fs, es)) =~= declared_fields(fs));
        },
        _ => {},
    }
}

/// The elements of an array are put together one after another.
pub proof fn lemma_assembled_elems(t: TyView, vars: Seq<TermView>, k: int, n: nat, p: int)
    requires
        declarable(t, None),
    ensures
        assembled_elems(t, vars, k, n, p).len() == n,
        next_after(assembled_elems(t, vars, k, n, p), k) == k + elem_count(t, n),
        forall|i: int|
            0 <= i < n ==> (#[trigger] assembled_elems(t, vars, k, n, p)[i]).value.ty
                == declared_ty(t),
    decreases t, n,
{
    if n > 0 {
        lemma_assembled_elems(t, vars, k, (n - 1) as nat, p);
        let es = assembled_elems(t, vars, k, (n - 1) as nat, p);
        lemma_assembled(t, vars, next_after(es, k), p);
    }
}

/// The fields of a class are put together one after another.
pub proof fn lemma_assembled_fields(
    fs: Seq<(Seq<char>, TyView)>,
    vars: Seq<TermView>,
    k: int,
    n: nat,
    p: int,
)
    requires
        fields_declarable(fs),
        n <= fs.len(),
    ensures
        assembled_fields(fs, vars, k, n, p).len() == n,
        next_after(assembled_fields(fs, vars, k, n, p), k) == k + field_count(fs, n),
        forall|i: int|
            0 <= i < n ==> (#[trigger] assembled_fields(fs, vars, k, n, p)[i]).value.ty
                == declared_ty(fs[i].1),
    decreases fs, n,
{
    if n > 0 {
        lemma_assembled_fields(fs, vars, k, (n - 1) as nat, p);
        let es = assembled_fields(fs, vars, k, (n - 1) as nat, p);
        assert(declarable(fs[n - 1].1, None));
        lemma_assembled(fs[n - 1].1, vars, next_after(es, k), p);
    }
}

/// As many variables are declared for an input as are counted for its type.
pub proof fn lemma_input_vars_count(
    ty: TyView,
    name: Seq<char>,
    visibility: Option<u8>,
    pre: Option<PyTermView>,
    p: int,
)
    ensures
        input_vars(ty, name, visibility, pre, p).len() == input_count(ty),
    decreases ty, 0nat,
{
    match ty {
        TyView::Array(n, t) => {
            lemma_elem_vars_count(*t, name, visibility, pre, n, p);
        },
        TyView::DataClass(_, fs) => {
            lemma_field_vars_count(fs, name, visibility, fs.len(), p);
        },
        _ => {},
    }
}

pub proof fn lemma_elem_vars_count(
    t: TyView,
    name: Seq<char>,
    visibility: Option<u8>,
    pre: Option<PyTermView>,
    n: nat,
    p: int,
)
    ensures
        elem_vars(t, name, visibility, pre, n, p).len() == elem_count(t, n),
    decreases t, n,
{
    if n > 0 {
        lemma_elem_vars_count(t, name, visibility, pre, (n - 1) as nat, p);
        lemma_input_vars_count(
            t,
            idx_name_text(name, (n - 1) as nat),
            visibility,
            pre_elem(pre, n - 1, p),
            p,
        );
    }
}

pub proof fn lemma_field_vars_count(
    fs: Seq<(Seq<char>, TyView)>,
    name: Seq<char>,
    visibility: Option<u8>,
    n: nat,
    p: int,
)
    requires
        n <= fs.len(),
    ensures
        field_vars(fs, name, visibility, n, p).len() == field_count(fs, n),
    decreases fs, n,
{
    if n > 0 {
        lemma_field_vars_count(fs, name, visibility, (n - 1) as nat, p);
        lemma_input_vars_count(
            fs[n - 1].1,
            field_name_text(name, fs[n - 1].0),
            visibility,
            None,
            p,
        );
    }
}

proof fn lemma_elem_count_monotone(t: TyView, m: nat, n: nat)
    requires
        m <= n,
    ensures
        elem_count(t, m) <= elem_count(t, n),
    decreases n,
{
    if m < n {
        lemma_elem_count_monotone(t, m, (n - 1) as nat);
    }
}

proof fn lemma_field_count_monotone(fs: Seq<(Seq<char>, TyView)>, m: nat, n: nat)
    requires
        m <= n <= fs.len(),
    ensures
        field_count(fs, m) <= field_count(fs, n),
    decreases n,
{
    if m < n {
        lemma_field_count_monotone(fs, m, (n - 1) as nat);
    }
}

impl Python {
    /// The input of a type, put together from the variables that were declared
    /// for it.
    pub fn assemble_input(&self, ty: &Ty, vars: &Vec<Term>, cfg: &Cfg) -> (r: PyTerm)
        requires
            declarable(ty@, None),
            vars@.len() == input_count(ty@),
        ensures
            r@ == assembled(ty@, terms_view(vars@), 0, cfg@).value,
            r@.ty == declared_ty(ty@),
    {
        let (value, _, _) = assemble(ty, vars, 0, cfg);
        value
    }
}

fn assemble(ty: &Ty, vars: &Vec<Term>, k: usize, cfg: &Cfg) -> (r: (PyTerm, Sort, usize))
    requires
        declarable(ty@, None),
        k + input_count(ty@) <= vars@.len(),
    ensures
        r.0@ == assembled(ty@, terms_view(vars@), k as int, cfg@).value,
        r.1@ == assembled(ty@, terms_view(vars@), k as int, cfg@).sort,
        r.2 == assembled(ty@, terms_view(vars@), k as int, cfg@).next,
        r.2 == k + input_count(ty@),
        r.0@.ty == declared_ty(ty@),
    decreases ty@,
{
    let total: usize = vars.len();
    let ghost vs = terms_view(vars@);
    proof {
        lemma_assembled(ty@, vs, k as int, cfg@);
    }
    match ty {
        Ty::Array(n, t) => {
            let ghost want = assembled_elems(t@, vs, k as int, *n as nat, cfg@);
            let mut elems: Vec<PyTerm> = Vec::new();
            let mut sort = Sort::Bool;
            let mut next: usize = k;
            let mut i: usize = 0;
            while i < *n
                invariant
                    ty@ == TyView::Array(*n as nat, Box::new(t@)),
                    declarable(ty@, None),
                    k + input_count(ty@) <= vars@.len(),
                    vs == terms_view(vars@),
                    i <= *n,
                    pys_view(elems@) == assembled_values(
                        assembled_elems(t@, vs, k as int, i as nat, cfg@),
                    ),
                    i > 0 ==> sort@ == assembled_elems(t@, vs, k as int, i as nat, cfg@)[0].sort,
                    next == next_after(assembled_elems(t@, vs, k as int, i as nat, cfg@), k as int),
                decreases *n - i,
            {
                let ghost es = assembled_elems(t@, vs, k as int, i as nat, cfg@);
                let ghost before = pys_view(elems@);
                proof {
                    assert(decreases_to!(ty@ => ty@->Array_1));
                    lemma_assembled_elems(t@, vs, k as int, i as nat, cfg@);
                    lemma_elem_count_monotone(t@, (i + 1) as nat, *n as nat);
                }
                let (value, s, after) = assemble(t, vars, next, cfg);
                elems.push(value);
                if i == 0 {
                    sort = s;
                }
                next = after;
                proof {
                    let es1 = assembled_elems(t@, vs, k as int, (i + 1) as nat, cfg@);
                    assert(pys_view(elems@) =~= before.push(value@));
                    assert(pys_view(elems@) =~= assembled_values(es1));
                    assert(es1[0] == if i == 0 { es1.last() } else { es[0] });
                }
                i += 1;
            }
            proof {
                lemma_assembled_elems(t@, vs, k as int, *n as nat, cfg@);
                let ts = assembled_values(want);
                assert forall|i: int| 0 <= i < ts.len() implies #[trigger] ts[i].ty
                    == ts[0].ty by {
                    assert(want[i].value.ty == want[0].value.ty);
                }
            }
            let whole = Sort::Array(
                Box::new(default_field_sort(cfg)),
                Box::new(sort.clone()),
                *n,
            );
            match array(elems, sort, cfg) {
                Ok(value) => (value, whole, next),
                Err(_) => unreached(),
            }
        },
        Ty::MutArray(n) => {
            let ghost want = Seq::new(*n as nat, |i: int| py(TyView::Field, vs[k + i]));
            let mut elems: Vec<PyTerm> = Vec::new();
            let mut i: usize = 0;
            while i < *n
                invariant
                    vs == terms_view(vars@),
                    k + *n <= total,
                    total == vars@.len(),
                    want == Seq::new(*n as nat, |i: int| py(TyView::Field, vs[k + i])),
                    i <= *n,
                    pys_view(elems@) == want.take(i as int),
                decreases *n - i,
            {
                let ghost before = pys_view(elems@);
                elems.push(PyTerm::new(Ty::Field, vars[k + i].clone()));
                assert(pys_view(elems@) =~= before.push(want[i as int]));
                assert(pys_view(elems@) =~= want.take(i + 1));
                i += 1;
            }
            assert(want.take(*n as int) =~= want);
            let whole = Sort::Array(
                Box::new(default_field_sort(cfg)),
                Box::new(default_field_sort(cfg)),
                *n,
            );
            match array(elems, default_field_sort(cfg), cfg) {
                Ok(value) => (value, whole, k + *n),
                Err(_) => unreached(),
            }
        },
        Ty::DataClass(name, fs) => {
            let ghost want = assembled_fields(fs@, vs, k as int, fs@.len(), cfg@);
            let mut fields: Vec<(String, PyTerm)> = Vec::new();
            let mut sorts: Vec<Sort> = Vec::new();
            let mut next: usize = k;
            let mut i: usize = 0;
            while i < fs.len()
                invariant
                    ty@ == TyView::DataClass(name@, fs@),
                    fields_declarable(fs@),
                    k + field_count(fs@, fs@.len()) <= vars@.len(),
                    vs == terms_view(vars@),
                    i <= fs@.len(),
                    named_pys(fields@) == assembled_class(
                        fs@,
                        assembled_fields(fs@, vs, k as int, i as nat, cfg@),
                    ),
                    sorts@.len() == i,
                    forall|j: int|
                        0 <= j < i ==> (#[trigger] sorts@[j])@ == assembled_fields(
                            fs@,
                            vs,
                            k as int,
                            i as nat,
                            cfg@,
                        )[j].sort,
                    next == next_after(assembled_fields(fs@, vs, k as int, i as nat, cfg@), k as int),
                decreases fs@.len() - i,
            {
                let ghost es = assembled_fields(fs@, vs, k as int, i as nat, cfg@);
                let ghost before = named_pys(fields@);
                let (f_name, f_ty) = fs.get(i);
                proof {
                    assert(decreases_to!(ty@ => ty@->DataClass_1));
                    assert(decreases_to!(fs@ => fs@[i as int]));
                    lemma_assembled_fields(fs@, vs, k as int, i as nat, cfg@);
                    lemma_field_count_monotone(fs@, (i + 1) as nat, fs@.len());
                    assert(declarable(fs@[i as int].1, None));
                }
                let (value, s, after) = assemble(f_ty, vars, next, cfg);
                fields.push((f_name.to_owned(), value));
                sorts.push(s);
                next = after;
                proof {
                    let es1 = assembled_fields(fs@, vs, k as int, (i + 1) as nat, cfg@);
                    assert(named_pys(fields@) =~= before.push((f_name@, value@)));
                    assert(named_pys(fields@) =~= assembled_class(fs@, es1));
                }
                i += 1;
            }
            let ghost named = named_pys(fields@);
            proof {
                lemma_assembled_fields(fs@, vs, k as int, fs@.len(), cfg@);
                assert(named.len() == fields@.len());
            }
            let (value, picked) = class_with_slots(name.clone(), fields);
            let mut components: Vec<Sort> = Vec::new();
            let mut c: usize = 0;
            while c < picked.len()
                invariant
                    sorts@.len() == want.len(),
                    forall|j: int| 0 <= j < want.len() ==> (#[trigger] sorts@[j])@ == want[j].sort,
                    picked@.len() == class_slots(named).len(),
                    forall|i: int|
                        0 <= i < picked@.len() ==> (#[trigger] picked@[i]) == class_slots(named)[i]
                            && picked@[i] < want.len(),
                    c <= picked@.len(),
                    components@.len() == c,
                    forall|i: int|
                        0 <= i < c ==> (#[trigger] components@[i])@ == want[class_slots(
                            named,
                        )[i]].sort,
                decreases picked@.len() - c,
            {
                let j: usize = picked[c];
                components.push(sorts[j].clone());
                c += 1;
            }
            assert(sorts_view(components@) =~= class_slots(named).map_values(
                |j: int| want[j].sort,
            ));
            (value, Sort::Tuple(components), next)
        },
        _ => (PyTerm::new(ty.clone(), vars[k].clone()), ty.sort(cfg), k + 1),
    }
}

} // verus!
