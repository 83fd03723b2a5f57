//! Python values: a type, and the term that the value is.
use crate::error::{Error, ErrorView};
use crate::field::Cfg;
use crate::integer::Integer;
use crate::ir::{
    bv_const, bv_lit, default_value, leaf, node, node1, node2, pf_index, pf_lit, pf_lit_ir,
    sorts_view, term, term1, term2, terms_view, Op, OpView, Sort, SortView, Term, TermView,
};
use crate::names::{
    by_name, last_named, lemma_by_name, lemma_by_name_contains, lemma_by_name_distinct, lemma_slots,
    names_distinct, same_text, slots,
};
use crate::ty::{named_tys, ty_sort, FieldList, Ty, TyView};
use vstd::arithmetic::power2::pow2;
use vstd::prelude::*;

verus! {

/// A Python value.
#[derive(Debug)]
pub struct PyTerm {
    pub ty: Ty,
    pub term: Term,
}

/// What a `PyTerm` is.
pub struct PyTermView {
    pub ty: TyView,
    pub term: TermView,
}

impl View for PyTerm {
    type V = PyTermView;

    open spec fn view(&self) -> PyTermView {
        PyTermView { ty: self.ty@, term: self.term@ }
    }
}

/// The value of a type that is a term.
pub open spec fn py(ty: TyView, term: TermView) -> PyTermView {
    PyTermView { ty, term }
}

/// The views of values.
pub open spec fn pys_view(ts: Seq<PyTerm>) -> Seq<PyTermView> {
    Seq::new(ts.len(), |i: int| ts[i]@)
}

/// The views of named values.
pub open spec fn named_pys(fs: Seq<(String, PyTerm)>) -> Seq<(Seq<char>, PyTermView)> {
    Seq::new(fs.len(), |i: int| (fs[i].0@, fs[i].1@))
}

/// What an operation gives: a value, or why it is refused.
pub open spec fn outcome(r: Result<PyTerm, Error>) -> Result<PyTermView, ErrorView> {
    match r {
        Ok(t) => Ok(t@),
        Err(e) => Err(e@),
    }
}

/// The element of the array `a` at the index `i`.
pub open spec fn elem(a: TermView, i: int, p: int) -> TermView {
    node2(OpView::Select, a, pf_lit(i, p))
}

/// The first `n` elements of the array `a`.
pub open spec fn elems(a: TermView, n: nat, p: int) -> Seq<TermView> {
    Seq::new(n, |i: int| elem(a, i, p))
}

/// The elements of an array value, and what is refused.
pub open spec fn unwrapped(a: PyTermView, p: int) -> Result<Seq<PyTermView>, ErrorView> {
    match a.ty {
        TyView::Array(n, ty) => Ok(Seq::new(n, |i: int| py(*ty, elem(a.term, i, p)))),
        TyView::MutArray(n) => Ok(Seq::new(n, |i: int| py(TyView::Field, elem(a.term, i, p)))),
        ty => Err(ErrorView::NotArray(ty)),
    }
}

/// The scalars inside a term of the given sort: elements in the order of their
/// indices, components in their order.
pub open spec fn scalars(t: TermView, s: SortView, p: int) -> Seq<TermView>
    decreases s, 0nat,
{
    match s {
        SortView::Array(_, v, n) => elem_scalars(t, *v, n, p),
        SortView::Tuple(ss) => component_scalars(t, ss, ss.len(), p),
        SortView::Foreign(_) => Seq::empty(),
        _ => seq![t],
    }
}

/// The scalars inside the first `n` elements of an array.
pub open spec fn elem_scalars(t: TermView, v: SortView, n: nat, p: int) -> Seq<TermView>
    decreases v, n,
{
    if n == 0 {
        Seq::empty()
    } else {
        elem_scalars(t, v, (n - 1) as nat, p) + scalars(elem(t, n - 1, p), v, p)
    }
}

/// The scalars inside the first `n` components of a tuple.
pub open spec fn component_scalars(
    t: TermView,
    ss: Seq<SortView>,
    n: nat,
    p: int,
) -> Seq<TermView>
    decreases ss, n,
{
    if n == 0 || n > ss.len() {
        Seq::empty()
    } else {
        component_scalars(t, ss, (n - 1) as nat, p) + scalars(
            node1(OpView::Field((n - 1) as nat), t),
            ss[n - 1],
            p,
        )
    }
}

/// Whether a term of the given sort is made of scalars: no part of it is of a
/// sort that no Python type has.
pub open spec fn listable(s: SortView) -> bool
    decreases s,
{
    match s {
        SortView::Array(_, v, n) => n == 0 || listable(*v),
        SortView::Tuple(ss) => all_listable(ss),
        SortView::Foreign(_) => false,
        _ => true,
    }
}

pub open spec fn all_listable(ss: Seq<SortView>) -> bool
    decreases ss,
{
    forall|i: int| 0 <= i < ss.len() ==> listable(#[trigger] ss[i])
}

proof fn lemma_listable_component(ss: Seq<SortView>, i: int)
    requires
        listable(SortView::Tuple(ss)),
        0 <= i < ss.len(),
    ensures
        listable(ss[i]),
{
    reveal_with_fuel(listable, 2);
    assert(all_listable(ss));
}

impl Sort {
    /// Whether a term of the sort is made of scalars.
    pub fn is_listable(&self) -> (r: bool)
        ensures
            r == listable(self@),
        decreases *self,
    {
        match self {
            Sort::Tuple(ss) => {
                let mut i: usize = 0;
                while i < ss.len()
                    invariant
                        *self == Sort::Tuple(*ss),
                        i <= ss@.len(),
                        forall|j: int| 0 <= j < i ==> listable((#[trigger] ss@[j])@),
                    decreases ss@.len() - i,
                {
                    proof {
                        assert(decreases_to!(*self => self->Tuple_0));
                    }
                    if !ss[i].is_listable() {
                        proof {
                            if listable(self@) {
                                lemma_listable_component(sorts_view(ss@), i as int);
                            }
                        }
                        return false;
                    }
                    i += 1;
                }
                proof {
                    let all = sorts_view(ss@);
                    assert forall|j: int| 0 <= j < all.len() implies listable(
                        #[trigger] all[j],
                    ) by {
                        assert(listable(ss@[j]@));
                    }
                    reveal_with_fuel(listable, 2);
                    assert(all_listable(all));
                }
                true
            },
            Sort::Array(_, v, n) => *n == 0 || v.is_listable(),
            Sort::Foreign(_) => false,
            _ => true,
        }
    }
}

/// The types of named values.
pub open spec fn field_tys(fs: Seq<(Seq<char>, PyTermView)>) -> Seq<(Seq<char>, TyView)> {
    Seq::new(fs.len(), |i: int| (fs[i].0, fs[i].1.ty))
}

/// The places in `fs` of the components of a class value: for each name the
/// last value given for it, in the order of the names.
pub open spec fn class_slots(fs: Seq<(Seq<char>, PyTermView)>) -> Seq<int> {
    slots(by_name(field_tys(fs)), fs, fs.len())
}

/// The value of a data class with the given fields.
pub open spec fn class_value(name: Seq<char>, fs: Seq<(Seq<char>, PyTermView)>) -> PyTermView {
    py(
        TyView::DataClass(name, by_name(field_tys(fs))),
        node(OpView::Tuple, class_slots(fs).map_values(|j: int| fs[j].1.term)),
    )
}

/// Where the names of a class value's fields are different, the components are
/// all the fields, in the order of their names.
pub proof fn lemma_class_slots(fs: Seq<(Seq<char>, PyTermView)>)
    requires
        names_distinct(fs),
    ensures
        names_distinct(by_name(field_tys(fs))),
        by_name(field_tys(fs)).len() == fs.len(),
        class_slots(fs).len() == fs.len(),
        forall|k: int|
            0 <= k < fs.len() ==> 0 <= #[trigger] class_slots(fs)[k] < fs.len() && (
            fs[class_slots(fs)[k]].0, fs[class_slots(fs)[k]].1.ty) == by_name(field_tys(fs))[k],
{
    let tys = field_tys(fs);
    let order = by_name(tys);
    lemma_by_name(tys);
    assert forall|i: int, j: int| 0 <= i < j < tys.len() implies #[trigger] tys[i].0
        != #[trigger] tys[j].0 by {
        assert(fs[i].0 != fs[j].0);
    }
    lemma_by_name_distinct(tys);
    assert forall|k: int| 0 <= k < order.len() implies exists|j: int|
        0 <= j < fs.len() && (#[trigger] fs[j]).0 == (#[trigger] order[k]).0 by {
        lemma_by_name_contains(tys, order[k]);
        let j = choose|j: int| 0 <= j < tys.len() && tys[j] == order[k];
        assert(fs[j].0 == order[k].0);
    }
    lemma_slots(order, fs, fs.len());
    assert forall|k: int| 0 <= k < fs.len() implies 0 <= #[trigger] class_slots(fs)[k] < fs.len()
        && (fs[class_slots(fs)[k]].0, fs[class_slots(fs)[k]].1.ty) == order[k] by {
        let s = class_slots(fs)[k];
        lemma_by_name_contains(tys, order[k]);
        assert(order.contains(order[k]));
        let j = choose|j: int| 0 <= j < tys.len() && tys[j] == order[k];
        assert(fs[j].0 == order[k].0);
        assert(fs[s].0 == order[k].0);
        assert(s == j) by {
            if s < j {
                assert(fs[s].0 != fs[j].0);
            } else if j < s {
                assert(fs[j].0 != fs[s].0);
            }
        }
    }
}

impl Clone for PyTerm {
    fn clone(&self) -> (r: Self)
        ensures
            r@ == self@,
    {
        PyTerm { ty: self.ty.clone(), term: self.term.clone() }
    }
}

impl Ty {
    /// The value that the type starts from.
    pub fn default(&self, cfg: &Cfg) -> (r: PyTerm)
        ensures
            r@ == py(self@, leaf(OpView::Const(default_value(ty_sort(self@, cfg@))))),
    {
        PyTerm { ty: self.clone(), term: self.default_ir_term(cfg) }
    }
}

impl PyTerm {
    /// The value of the given type that is the given term.
    pub fn new(ty: Ty, term: Term) -> (r: Self)
        ensures
            r == (PyTerm { ty, term }),
    {
        PyTerm { ty, term }
    }

    /// The type.
    pub fn type_(&self) -> (r: &Ty)
        ensures
            *r == self.ty,
    {
        &self.ty
    }

    /// All the scalar terms inside the value, where `sort` is the sort of its
    /// term.
    pub fn terms(&self, sort: &Sort, cfg: &Cfg) -> (r: Vec<Term>)
        requires
            listable(sort@),
        ensures
            terms_view(r@) == scalars(self.term@, sort@, cfg@),
    {
        let mut output: Vec<Term> = Vec::new();
        terms_tail(&self.term, sort, &mut output, cfg);
        assert(terms_view(output@) =~= scalars(self.term@, sort@, cfg@));
        output
    }

    /// The terms of the elements of an array.
    pub fn unwrap_array_ir(self, cfg: &Cfg) -> (r: Result<Vec<Term>, Error>)
        ensures
            match r {
                Ok(ts) => match self.ty@ {
                    TyView::Array(n, _) => terms_view(ts@) == elems(self.term@, n, cfg@),
                    TyView::MutArray(n) => terms_view(ts@) == elems(self.term@, n, cfg@),
                    _ => false,
                },
                Err(e) => e@ == ErrorView::NotArray(self.ty@) && !(self.ty@ is Array)
                    && !(self.ty@ is MutArray),
            },
    {
        match &self.ty {
            Ty::Array(size, _) => Ok(select_all(&self.term, *size, cfg)),
            Ty::MutArray(size) => Ok(select_all(&self.term, *size, cfg)),
            s => Err(Error::NotArray(s.clone())),
        }
    }

    /// The elements of an array.
    pub fn unwrap_array(self, cfg: &Cfg) -> (r: Result<Vec<PyTerm>, Error>)
        ensures
            match r {
                Ok(ts) => unwrapped(self@, cfg@) == Ok::<Seq<PyTermView>, ErrorView>(
                    pys_view(ts@),
                ),
                Err(e) => unwrapped(self@, cfg@) == Err::<Seq<PyTermView>, ErrorView>(e@),
            },
    {
        let ghost a = self.term@;
        let ty: Ty = match &self.ty {
            Ty::Array(_, elem_ty) => (**elem_ty).clone(),
            _ => Ty::Field,
        };
        match self.unwrap_array_ir(cfg) {
            Ok(ts) => {
                let out = of_type(&ty, ts);
                proof {
                    lemma_of_type(ty@, ts@, out@, a, cfg@);
                    assert(terms_view(ts@).len() == ts@.len());
                    assert(pys_view(out@) =~= unwrapped(self@, cfg@)->Ok_0);
                }
                Ok(out)
            },
            Err(e) => Err(e),
        }
    }
}

impl PyTerm {
    /// The value of a data class with the given fields.
    pub fn new_class(name: String, fields: Vec<(String, PyTerm)>) -> (r: PyTerm)
        ensures
            r@ == class_value(name@, named_pys(fields@)),
    {
        let (class_, _) = class_with_slots(name, fields);
        class_
    }

    /// The field element that `v` stands for.
    pub fn new_field(v: Integer, cfg: &Cfg) -> (r: Self)
        ensures
            r@ == py(TyView::Field, pf_lit(v@, cfg@)),
    {
        PyTerm::new(Ty::Field, pf_lit_ir(&v, cfg))
    }

    /// The unsigned integer `v`, held in sixteen bits.
    pub fn new_u8(v: Integer) -> (r: Self)
        requires
            0 <= v@ < pow2(16),
        ensures
            r@ == py(TyView::Uint(16), bv_const(v@, 16)),
    {
        PyTerm::new(Ty::Uint(16), bv_lit(v, 16))
    }

    /// The unsigned integer `v` of sixteen bits.
    pub fn new_u16(v: Integer) -> (r: Self)
        requires
            0 <= v@ < pow2(16),
        ensures
            r@ == py(TyView::Uint(16), bv_const(v@, 16)),
    {
        PyTerm::new(Ty::Uint(16), bv_lit(v, 16))
    }

    /// The unsigned integer `v` of 32 bits.
    pub fn new_u32(v: Integer) -> (r: Self)
        requires
            0 <= v@ < pow2(32),
        ensures
            r@ == py(TyView::Uint(32), bv_const(v@, 32)),
    {
        PyTerm::new(Ty::Uint(32), bv_lit(v, 32))
    }

    /// The unsigned integer `v` of 64 bits.
    pub fn new_u64(v: Integer) -> (r: Self)
        requires
            0 <= v@ < pow2(64),
        ensures
            r@ == py(TyView::Uint(64), bv_const(v@, 64)),
    {
        PyTerm::new(Ty::Uint(64), bv_lit(v, 64))
    }
}

/// The value of a data class with the given fields, and which of them its
/// components are.
pub(crate) fn class_with_slots(name: String, fields: Vec<(String, PyTerm)>) -> (r: (
    PyTerm,
    Vec<usize>,
))
    ensures
        r.0@ == class_value(name@, named_pys(fields@)),
        r.1@.len() == class_slots(named_pys(fields@)).len(),
        forall|i: int|
            0 <= i < r.1@.len() ==> (#[trigger] r.1@[i]) == class_slots(named_pys(fields@))[i]
                && r.1@[i] < fields@.len(),
{
    let ghost fs = named_pys(fields@);
    let mut field_tys: Vec<(String, Ty)> = Vec::new();
    let mut i: usize = 0;
    while i < fields.len()
        invariant
            fs == named_pys(fields@),
            i <= fields@.len(),
            field_tys@.len() == i,
            forall|j: int|
                0 <= j < i ==> (#[trigger] field_tys@[j]).0@ == fs[j].0 && field_tys@[j].1@
                    == fs[j].1.ty,
        decreases fields@.len() - i,
    {
        field_tys.push((fields[i].0.clone(), fields[i].1.ty.clone()));
        i += 1;
    }
    assert(named_tys(field_tys@) =~= self::field_tys(fs));
    let list = FieldList::new(field_tys);
    let ghost all = class_slots(fs);
    proof {
        lemma_by_name(self::field_tys(fs));
    }
    let mut picked: Vec<usize> = Vec::new();
    let mut ir_terms: Vec<Term> = Vec::new();
    let mut k: usize = 0;
    while k < list.len()
        invariant
            fs == named_pys(fields@),
            k <= list@.len(),
            picked@.len() == slots(list@, fs, k as nat).len(),
            forall|i: int|
                0 <= i < picked@.len() ==> (#[trigger] picked@[i]) == slots(
                    list@,
                    fs,
                    k as nat,
                )[i] && picked@[i] < fields@.len(),
            terms_view(ir_terms@) == slots(list@, fs, k as nat).map_values(
                |j: int| fs[j].1.term,
            ),
        decreases list@.len() - k,
    {
        let ghost before = slots(list@, fs, k as nat);
        let ghost terms_before = terms_view(ir_terms@);
        let (key, _) = list.get(k);
        if let Some((first, _)) = list.search(key) {
            if first == k {
                if let Some(j) = last_given(&fields, key) {
                    picked.push(j);
                    ir_terms.push(fields[j].1.term.clone());
                    assert(terms_view(ir_terms@) =~= terms_before.push(fs[j as int].1.term));
                    assert(slots(list@, fs, (k + 1) as nat) == before.push(j as int));
                    assert(terms_view(ir_terms@) =~= slots(
                        list@,
                        fs,
                        (k + 1) as nat,
                    ).map_values(|j: int| fs[j].1.term));
                }
            }
        }
        k += 1;
    }
    (PyTerm::new(Ty::DataClass(name, list), term(Op::Tuple, ir_terms)), picked)
}

/// The place of the last value called `key`.
fn last_given(fields: &Vec<(String, PyTerm)>, key: &str) -> (r: Option<usize>)
    ensures
        match r {
            Some(i) => last_named(named_pys(fields@), key@, fields@.len()) == Some(i as int) && i
                < fields@.len(),
            None => last_named(named_pys(fields@), key@, fields@.len()) is None,
        },
{
    let ghost fs = named_pys(fields@);
    let mut i: usize = fields.len();
    while i > 0
        invariant
            fs == named_pys(fields@),
            i <= fields@.len(),
            last_named(fs, key@, fields@.len()) == last_named(fs, key@, i as nat),
        decreases i,
    {
        if same_text(fields[i - 1].0.as_str(), key) {
            return Some(i - 1);
        }
        i -= 1;
    }
    None
}

/// The elements of an array of the given size.
pub(crate) fn select_all(array: &Term, size: usize, cfg: &Cfg) -> (r: Vec<Term>)
    ensures
        terms_view(r@) == elems(array@, size as nat, cfg@),
{
    let mut out: Vec<Term> = Vec::new();
    let mut i: usize = 0;
    while i < size
        invariant
            i <= size,
            terms_view(out@) == elems(array@, i as nat, cfg@),
        decreases size - i,
    {
        let ghost before = terms_view(out@);
        out.push(term2(Op::Select, array.clone(), pf_index(i, cfg)));
        assert(terms_view(out@) =~= before.push(elem(array@, i as int, cfg@)));
        assert(terms_view(out@) =~= elems(array@, (i + 1) as nat, cfg@));
        i += 1;
    }
    out
}

/// Terms as values of one type.
fn of_type(ty: &Ty, ts: Vec<Term>) -> (r: Vec<PyTerm>)
    ensures
        pys_view(r@) == Seq::new(ts@.len(), |i: int| py(ty@, ts@[i]@)),
{
    let mut out: Vec<PyTerm> = Vec::new();
    for t in it: ts
        invariant
            pys_view(out@) == Seq::new(it.index() as nat, |i: int| py(ty@, it.seq()[i]@)),
    {
        let ghost before = pys_view(out@);
        out.push(PyTerm::new(ty.clone(), t));
        assert(pys_view(out@) =~= before.push(py(ty@, t@)));
        assert(pys_view(out@) =~= Seq::new(
            (it.index() + 1) as nat,
            |i: int| py(ty@, it.seq()[i]@),
        ));
    }
    out
}

proof fn lemma_of_type(ty: TyView, ts: Seq<Term>, out: Seq<PyTerm>, a: TermView, p: int)
    requires
        exists|n: nat| terms_view(ts) == elems(a, n, p),
        pys_view(out) == Seq::new(ts.len(), |i: int| py(ty, ts[i]@)),
    ensures
        terms_view(ts) == elems(a, ts.len(), p),
        pys_view(out) == Seq::new(ts.len(), |i: int| py(ty, elem(a, i, p))),
{
    let n = choose|n: nat| terms_view(ts) == elems(a, n, p);
    assert(terms_view(ts).len() == ts.len());
    assert(elems(a, n, p).len() == n);
    assert forall|i: int| 0 <= i < ts.len() implies (#[trigger] ts[i])@ == elem(a, i, p) by {
        assert(terms_view(ts)[i] == ts[i]@);
        assert(elems(a, n, p)[i] == elem(a, i, p));
    }
    assert(pys_view(out) =~= Seq::new(ts.len(), |i: int| py(ty, elem(a, i, p))));
}

fn terms_tail(term: &Term, sort: &Sort, output: &mut Vec<Term>, cfg: &Cfg)
    requires
        listable(sort@),
    ensures
        terms_view(final(output)@) == terms_view(old(output)@) + scalars(term@, sort@, cfg@),
    decreases *sort,
{
    match sort {
        Sort::Bool | Sort::BitVector(_) | Sort::Field(_) => {
            output.push(term.clone());
            assert(terms_view(output@) =~= terms_view(old(output)@) + seq![term@]);
        },
        Sort::Array(_, v, size) => {
            let mut i: usize = 0;
            while i < *size
                invariant
                    *sort matches Sort::Array(_, w, _) && w == *v,
                    *size > 0 ==> listable(v@),
                    i <= *size,
                    terms_view(output@) =~= terms_view(old(output)@) + elem_scalars(
                        term@,
                        v@,
                        i as nat,
                        cfg@,
                    ),
                decreases *size - i,
            {
                proof {
                    assert(decreases_to!(*sort => sort->Array_1));
                }
                let t = term2(Op::Select, term.clone(), pf_index(i, cfg));
                terms_tail(&t, v, output, cfg);
                i += 1;
            }
        },
        Sort::Tuple(sorts) => {
            let mut i: usize = 0;
            while i < sorts.len()
                invariant
                    *sort == Sort::Tuple(*sorts),
                    listable(sort@),
                    i <= sorts@.len(),
                    terms_view(output@) =~= terms_view(old(output)@) + component_scalars(
                        term@,
                        sorts_view(sorts@),
                        i as nat,
                        cfg@,
                    ),
                decreases sorts@.len() - i,
            {
                proof {
                    assert(decreases_to!(*sort => sort->Tuple_0));
                    lemma_listable_component(sorts_view(sorts@), i as int);
                }
                let t = term1(Op::Field(i), term.clone());
                terms_tail(&t, &sorts[i], output, cfg);
                i += 1;
            }
        },
        Sort::Foreign(_) => {},
    }
}

} // verus!
