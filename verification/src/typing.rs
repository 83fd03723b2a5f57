//! The sorts of terms, and values whose terms have the sorts of their types.
use crate::ir::{leaf, node, node1, node2, node3, node4, OpView, SortView, TermView, ValueView};
use crate::pyterm::PyTermView;
use crate::ty::ty_sort;
use vstd::arithmetic::power2::pow2;
use vstd::prelude::*;

verus! {

/// The sorts, where all are there.
pub open spec fn present(ss: Seq<Option<SortView>>) -> Option<Seq<SortView>> {
    if forall|i: int| 0 <= i < ss.len() ==> #[trigger] ss[i] is Some {
        Some(Seq::new(ss.len(), |i: int| ss[i]->0))
    } else {
        None
    }
}

/// Whether every sort is the given one.
pub open spec fn all_of(ss: Seq<SortView>, s: SortView) -> bool {
    forall|i: int| 0 <= i < ss.len() ==> #[trigger] ss[i] == s
}

/// The sort of a constant, where its parts agree and its numbers are in range.
pub open spec fn value_sort(v: ValueView) -> Option<SortView>
    decreases v,
{
    match v {
        ValueView::Bool(_) => Some(SortView::Bool),
        ValueView::Field(f) => if 0 <= f.value < f.modulus {
            Some(SortView::Field(f.modulus))
        } else {
            None
        },
        ValueView::BitVector(b) => if 0 <= b.uint < pow2(b.width) {
            Some(SortView::BitVector(b.width))
        } else {
            None
        },
        ValueView::Tuple(vs) => match present(value_sorts(vs)) {
            Some(ss) => Some(SortView::Tuple(ss)),
            None => None,
        },
        ValueView::Array(k, s, vs) => match present(value_sorts(vs)) {
            Some(ss) => if all_of(ss, s) {
                Some(SortView::Array(Box::new(k), Box::new(s), vs.len()))
            } else {
                None
            },
            None => None,
        },
        ValueView::Foreign(_) => None,
    }
}

/// The sorts of constants.
pub open spec fn value_sorts(vs: Seq<ValueView>) -> Seq<Option<SortView>>
    decreases vs,
{
    Seq::new(
        vs.len(),
        |i: int|
            if 0 <= i < vs.len() {
                value_sort(vs[i])
            } else {
                None
            },
    )
}

/// The width of bit-vectors one after another.
pub open spec fn width_sum(ss: Seq<SortView>) -> Option<nat>
    decreases ss.len(),
{
    if ss.len() == 0 {
        Some(0)
    } else {
        match (width_sum(ss.drop_last()), ss.last()) {
            (Some(n), SortView::BitVector(w)) => Some(n + w),
            _ => None,
        }
    }
}

/// The sort of what an operator gives on arguments of the given sorts, where
/// it takes them.
pub open spec fn op_sort(op: OpView, ss: Seq<SortView>) -> Option<SortView> {
    match op {
        OpView::Const(v) => if ss.len() == 0 {
            value_sort(v)
        } else {
            None
        },
        OpView::Var(_, s) => if ss.len() == 0 {
            Some(s)
        } else {
            None
        },
        OpView::Ite => if ss.len() == 3 && ss[0] == SortView::Bool && ss[1] == ss[2] {
            Some(ss[1])
        } else {
            None
        },
        OpView::Eq => if ss.len() == 2 && ss[0] == ss[1] {
            Some(SortView::Bool)
        } else {
            None
        },
        OpView::Not => if ss.len() == 1 && ss[0] == SortView::Bool {
            Some(SortView::Bool)
        } else {
            None
        },
        OpView::BoolNaryOp(_) => if ss.len() > 0 && all_of(ss, SortView::Bool) {
            Some(SortView::Bool)
        } else {
            None
        },
        OpView::BvNaryOp(_) => if ss.len() > 0 && ss[0] is BitVector && all_of(ss, ss[0]) {
            Some(ss[0])
        } else {
            None
        },
        OpView::BvBinOp(_) => if ss.len() == 2 && ss[0] is BitVector && ss[0] == ss[1] {
            Some(ss[0])
        } else {
            None
        },
        OpView::BvUnOp(_) => if ss.len() == 1 && ss[0] is BitVector {
            Some(ss[0])
        } else {
            None
        },
        OpView::BvBinPred(_) => if ss.len() == 2 && ss[0] is BitVector && ss[0] == ss[1] {
            Some(SortView::Bool)
        } else {
            None
        },
        OpView::BvBit(i) => if ss.len() == 1 && ss[0] is BitVector && i < ss[0]->BitVector_0 {
            Some(SortView::Bool)
        } else {
            None
        },
        OpView::BvConcat => match width_sum(ss) {
            Some(w) => Some(SortView::BitVector(w)),
            None => None,
        },
        OpView::BoolToBv => if ss.len() == 1 && ss[0] == SortView::Bool {
            Some(SortView::BitVector(1))
        } else {
            None
        },
        OpView::PfNaryOp(_) => if ss.len() > 0 && ss[0] is Field && all_of(ss, ss[0]) {
            Some(ss[0])
        } else {
            None
        },
        OpView::PfUnOp(_) => if ss.len() == 1 && ss[0] is Field {
            Some(ss[0])
        } else {
            None
        },
        OpView::PfToBv(w) => if ss.len() == 1 && ss[0] is Field {
            Some(SortView::BitVector(w))
        } else {
            None
        },
        OpView::UbvToPf(p) => if ss.len() == 1 && ss[0] is BitVector {
            Some(SortView::Field(p))
        } else {
            None
        },
        OpView::Select => if ss.len() == 2 && ss[0] is Array && *ss[0]->Array_0 == ss[1] {
            Some(*ss[0]->Array_1)
        } else {
            None
        },
        OpView::Store => if ss.len() == 3 && ss[0] is Array && *ss[0]->Array_0 == ss[1]
            && *ss[0]->Array_1 == ss[2] {
            Some(ss[0])
        } else {
            None
        },
        OpView::CStore => if ss.len() == 4 && ss[0] is Array && *ss[0]->Array_0 == ss[1]
            && *ss[0]->Array_1 == ss[2] && ss[3] == SortView::Bool {
            Some(ss[0])
        } else {
            None
        },
        OpView::Fill(k, n) => if ss.len() == 1 {
            Some(SortView::Array(Box::new(k), Box::new(ss[0]), n))
        } else {
            None
        },
        OpView::Array(k, v) => if all_of(ss, v) {
            Some(SortView::Array(Box::new(k), Box::new(v), ss.len()))
        } else {
            None
        },
        OpView::Tuple => Some(SortView::Tuple(ss)),
        OpView::Field(i) => if ss.len() == 1 && ss[0] is Tuple && i < ss[0]->Tuple_0.len() {
            Some(ss[0]->Tuple_0[i as int])
        } else {
            None
        },
        OpView::Update(i) => if ss.len() == 2 && ss[0] is Tuple && i < ss[0]->Tuple_0.len()
            && ss[0]->Tuple_0[i as int] == ss[1] {
            Some(ss[0])
        } else {
            None
        },
        OpView::Foreign(_, s) => Some(s),
    }
}

/// The sort of a term, where each operator in it takes its arguments.
pub open spec fn sort_of(t: TermView) -> Option<SortView>
    decreases t,
{
    match present(sorts_of(t.cs)) {
        Some(ss) => op_sort(t.op, ss),
        None => None,
    }
}

/// The sorts of terms.
pub open spec fn sorts_of(ts: Seq<TermView>) -> Seq<Option<SortView>>
    decreases ts,
{
    Seq::new(
        ts.len(),
        |i: int|
            if 0 <= i < ts.len() {
                sort_of(ts[i])
            } else {
                None
            },
    )
}

/// Whether the term of a value has the sort of its type.
pub open spec fn well_typed(t: PyTermView, p: int) -> bool {
    sort_of(t.term) == Some(ty_sort(t.ty, p))
}

/// Whether what an operation gives, where it is not refused, is well typed.
pub open spec fn typed_outcome<E>(r: Result<PyTermView, E>, p: int) -> bool {
    r matches Ok(t) ==> well_typed(t, p)
}

/// The sort of a term follows from the sorts of its arguments.
pub proof fn lemma_sort_of(op: OpView, ts: Seq<TermView>, ss: Seq<SortView>)
    requires
        ts.len() == ss.len(),
        forall|i: int| 0 <= i < ts.len() ==> sort_of(#[trigger] ts[i]) == Some(ss[i]),
    ensures
        sort_of(node(op, ts)) == op_sort(op, ss),
{
    let all = sorts_of(ts);
    assert forall|i: int| 0 <= i < all.len() implies #[trigger] all[i] == Some(ss[i]) by {
        assert(sort_of(ts[i]) == Some(ss[i]));
    }
    assert(present(all)->0 =~= ss);
}

/// The sort of a term without arguments.
pub proof fn lemma_sort_of_leaf(op: OpView)
    ensures
        sort_of(leaf(op)) == op_sort(op, Seq::empty()),
{
    lemma_sort_of(op, Seq::empty(), Seq::empty());
}

/// The sort of a term with one argument.
pub proof fn lemma_sort_of1(op: OpView, a: TermView, s: SortView)
    requires
        sort_of(a) == Some(s),
    ensures
        sort_of(node1(op, a)) == op_sort(op, seq![s]),
{
    lemma_sort_of(op, seq![a], seq![s]);
}

/// The sort of a term with two arguments.
pub proof fn lemma_sort_of2(op: OpView, a: TermView, b: TermView, s: SortView, t: SortView)
    requires
        sort_of(a) == Some(s),
        sort_of(b) == Some(t),
    ensures
        sort_of(node2(op, a, b)) == op_sort(op, seq![s, t]),
{
    lemma_sort_of(op, seq![a, b], seq![s, t]);
}

/// The sort of a term with three arguments.
pub proof fn lemma_sort_of3(
    op: OpView,
    a: TermView,
    b: TermView,
    c: TermView,
    s: SortView,
    t: SortView,
    u: SortView,
)
    requires
        sort_of(a) == Some(s),
        sort_of(b) == Some(t),
        sort_of(c) == Some(u),
    ensures
        sort_of(node3(op, a, b, c)) == op_sort(op, seq![s, t, u]),
{
    lemma_sort_of(op, seq![a, b, c], seq![s, t, u]);
}

/// The sort of a term with four arguments.
pub proof fn lemma_sort_of4(
    op: OpView,
    a: TermView,
    b: TermView,
    c: TermView,
    d: TermView,
    s: SortView,
    t: SortView,
    u: SortView,
    v: SortView,
)
    requires
        sort_of(a) == Some(s),
        sort_of(b) == Some(t),
        sort_of(c) == Some(u),
        sort_of(d) == Some(v),
    ensures
        sort_of(node4(op, a, b, c, d)) == op_sort(op, seq![s, t, u, v]),
{
    lemma_sort_of(op, seq![a, b, c, d], seq![s, t, u, v]);
}

} // verus!
