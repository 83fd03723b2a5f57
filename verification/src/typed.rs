//! Every operation gives well-typed values on well-typed values.
use crate::integer::bit_length;
use crate::ir::{
    bv_const, leaf, node1, node2, pf_lit, BoolNaryOp, BvBinOp, BvBinPred, BvNaryOp, BvUnOp, OpView,
    PfNaryOp, PfUnOp, SortView, TermView, ValueView,
};
use crate::ops::{
    add_value, and_value, bitand_value, bitor_value, bitxor_value, choice, cond_value,
    const_integer, const_val_value, div_value, eq_value, field_pred, mul_value, neg_value,
    neq_value, not_value, or_value, pow_value, power, rem_value, shift, shift_fits, sub_value,
    uge_value, ugt_value, ule_value, ult_value,
};
use crate::pyterm::{py, PyTermView};
use crate::ty::{ty_sort, TyView};
use crate::typing::{
    lemma_sort_of1, lemma_sort_of2, lemma_sort_of3, lemma_sort_of_leaf, sort_of, typed_outcome,
    value_sort, well_typed,
};
use vstd::arithmetic::power2::pow2;
use vstd::prelude::*;

verus! {

proof fn lemma_bv_binary(op: OpView, a: TermView, b: TermView, w: nat)
    requires
        op is BvNaryOp || op is BvBinOp,
        sort_of(a) == Some(SortView::BitVector(w)),
        sort_of(b) == Some(SortView::BitVector(w)),
    ensures
        sort_of(node2(op, a, b)) == Some(SortView::BitVector(w)),
{
    lemma_sort_of2(op, a, b, SortView::BitVector(w), SortView::BitVector(w));
}

proof fn lemma_pf_binary(op: PfNaryOp, a: TermView, b: TermView, p: int)
    requires
        sort_of(a) == Some(SortView::Field(p)),
        sort_of(b) == Some(SortView::Field(p)),
    ensures
        sort_of(node2(OpView::PfNaryOp(op), a, b)) == Some(SortView::Field(p)),
{
    lemma_sort_of2(OpView::PfNaryOp(op), a, b, SortView::Field(p), SortView::Field(p));
}

/// Sums, differences, products, quotients and remainders of well-typed values
/// are well typed.
pub proof fn law_arithmetic_is_typed(a: PyTermView, b: PyTermView, p: int)
    requires
        well_typed(a, p),
        well_typed(b, p),
    ensures
        typed_outcome(add_value(a, b), p),
        typed_outcome(sub_value(a, b), p),
        typed_outcome(mul_value(a, b), p),
        typed_outcome(div_value(a, b), p),
        typed_outcome(rem_value(a, b, p), p),
{
    match a.ty {
        TyView::Uint(w) => {
            if a.ty == b.ty {
                lemma_bv_binary(OpView::BvNaryOp(BvNaryOp::Add), a.term, b.term, w);
                lemma_bv_binary(OpView::BvBinOp(BvBinOp::Sub), a.term, b.term, w);
                lemma_bv_binary(OpView::BvNaryOp(BvNaryOp::Mul), a.term, b.term, w);
                lemma_bv_binary(OpView::BvBinOp(BvBinOp::Udiv), a.term, b.term, w);
                lemma_bv_binary(OpView::BvBinOp(BvBinOp::Urem), a.term, b.term, w);
            }
        },
        TyView::Field => {
            if a.ty == b.ty {
                lemma_sort_of1(OpView::PfUnOp(PfUnOp::Neg), b.term, SortView::Field(p));
                lemma_sort_of1(OpView::PfUnOp(PfUnOp::Recip), b.term, SortView::Field(p));
                lemma_pf_binary(PfNaryOp::Add, a.term, b.term, p);
                lemma_pf_binary(
                    PfNaryOp::Add,
                    a.term,
                    node1(OpView::PfUnOp(PfUnOp::Neg), b.term),
                    p,
                );
                lemma_pf_binary(PfNaryOp::Mul, a.term, b.term, p);
                lemma_pf_binary(
                    PfNaryOp::Mul,
                    a.term,
                    node1(OpView::PfUnOp(PfUnOp::Recip), b.term),
                    p,
                );
                let len = bit_length(p as nat);
                let x = node1(OpView::PfToBv(len), a.term);
                let y = node1(OpView::PfToBv(len), b.term);
                lemma_sort_of1(OpView::PfToBv(len), a.term, SortView::Field(p));
                lemma_sort_of1(OpView::PfToBv(len), b.term, SortView::Field(p));
                lemma_bv_binary(OpView::BvBinOp(BvBinOp::Urem), x, y, len);
                lemma_sort_of1(
                    OpView::UbvToPf(p),
                    node2(OpView::BvBinOp(BvBinOp::Urem), x, y),
                    SortView::BitVector(len),
                );
            }
        },
        _ => {},
    }
}

/// Bitwise and logical combinations of well-typed values are well typed.
pub proof fn law_logic_is_typed(a: PyTermView, b: PyTermView, p: int)
    requires
        well_typed(a, p),
        well_typed(b, p),
    ensures
        typed_outcome(bitand_value(a, b), p),
        typed_outcome(bitor_value(a, b), p),
        typed_outcome(bitxor_value(a, b), p),
        typed_outcome(or_value(a, b), p),
        typed_outcome(and_value(a, b), p),
{
    match a.ty {
        TyView::Uint(w) => {
            if a.ty == b.ty {
                lemma_bv_binary(OpView::BvNaryOp(BvNaryOp::And), a.term, b.term, w);
                lemma_bv_binary(OpView::BvNaryOp(BvNaryOp::Or), a.term, b.term, w);
                lemma_bv_binary(OpView::BvNaryOp(BvNaryOp::Xor), a.term, b.term, w);
            }
        },
        TyView::Bool => {
            if a.ty == b.ty {
                lemma_sort_of2(
                    OpView::BoolNaryOp(BoolNaryOp::Or),
                    a.term,
                    b.term,
                    SortView::Bool,
                    SortView::Bool,
                );
                lemma_sort_of2(
                    OpView::BoolNaryOp(BoolNaryOp::And),
                    a.term,
                    b.term,
                    SortView::Bool,
                    SortView::Bool,
                );
            }
        },
        _ => {},
    }
}

proof fn lemma_pred_typed(pred: BvBinPred, a: PyTermView, b: PyTermView, p: int)
    requires
        well_typed(a, p),
        well_typed(b, p),
        a.ty == b.ty,
    ensures
        a.ty is Uint ==> sort_of(node2(OpView::BvBinPred(pred), a.term, b.term)) == Some(
            SortView::Bool,
        ),
        a.ty == TyView::Field ==> sort_of(field_pred(pred, a.term, b.term, p)) == Some(
            SortView::Bool,
        ),
{
    match a.ty {
        TyView::Uint(w) => {
            lemma_sort_of2(
                OpView::BvBinPred(pred),
                a.term,
                b.term,
                SortView::BitVector(w),
                SortView::BitVector(w),
            );
        },
        TyView::Field => {
            let len = bit_length(p as nat);
            lemma_sort_of1(OpView::PfToBv(len), a.term, SortView::Field(p));
            lemma_sort_of1(OpView::PfToBv(len), b.term, SortView::Field(p));
            lemma_sort_of2(
                OpView::BvBinPred(pred),
                node1(OpView::PfToBv(len), a.term),
                node1(OpView::PfToBv(len), b.term),
                SortView::BitVector(len),
                SortView::BitVector(len),
            );
        },
        _ => {},
    }
}

/// Comparisons of well-typed values are well typed.
pub proof fn law_comparison_is_typed(a: PyTermView, b: PyTermView, p: int)
    requires
        well_typed(a, p),
        well_typed(b, p),
    ensures
        typed_outcome(eq_value(a, b), p),
        typed_outcome(neq_value(a, b), p),
        typed_outcome(ult_value(a, b, p), p),
        typed_outcome(ule_value(a, b, p), p),
        typed_outcome(ugt_value(a, b, p), p),
        typed_outcome(uge_value(a, b, p), p),
{
    if a.ty == b.ty {
        let s = ty_sort(a.ty, p);
        lemma_sort_of2(OpView::Eq, a.term, b.term, s, s);
        lemma_sort_of1(OpView::Not, node2(OpView::Eq, a.term, b.term), SortView::Bool);
        lemma_pred_typed(BvBinPred::Ult, a, b, p);
        lemma_pred_typed(BvBinPred::Ule, a, b, p);
        lemma_pred_typed(BvBinPred::Ugt, a, b, p);
        lemma_pred_typed(BvBinPred::Uge, a, b, p);
    }
}

/// Negatives and opposites of well-typed values are well typed.
pub proof fn law_unary_is_typed(a: PyTermView, p: int)
    requires
        well_typed(a, p),
    ensures
        typed_outcome(neg_value(a), p),
        typed_outcome(not_value(a), p),
{
    let s = ty_sort(a.ty, p);
    lemma_sort_of1(OpView::BvUnOp(BvUnOp::Neg), a.term, s);
    lemma_sort_of1(OpView::PfUnOp(PfUnOp::Neg), a.term, s);
    lemma_sort_of1(OpView::BvUnOp(BvUnOp::Not), a.term, s);
    lemma_sort_of1(OpView::Not, a.term, s);
}

/// A choice between well-typed values is well typed.
pub proof fn law_choice_is_typed(c: PyTermView, a: PyTermView, b: PyTermView, p: int)
    requires
        well_typed(c, p),
        well_typed(a, p),
        well_typed(b, p),
    ensures
        typed_outcome(cond_value(c, a, b), p),
        c.ty == TyView::Bool ==> typed_outcome(choice(c.term, a, b), p),
{
    if c.ty == TyView::Bool && a.ty == b.ty {
        let s = ty_sort(a.ty, p);
        lemma_sort_of3(OpView::Ite, c.term, a.term, b.term, SortView::Bool, s, s);
    }
}

proof fn lemma_power_sort(a: TermView, n: nat, p: int)
    requires
        sort_of(a) == Some(SortView::Field(p)),
    ensures
        sort_of(power(a, n)) == Some(SortView::Field(p)),
    decreases n,
{
    if n > 1 {
        let half = power(a, n / 2);
        lemma_power_sort(a, n / 2, p);
        lemma_pf_binary(PfNaryOp::Mul, half, half, p);
        lemma_pf_binary(
            PfNaryOp::Mul,
            node2(OpView::PfNaryOp(PfNaryOp::Mul), half, half),
            a,
            p,
        );
    }
}

/// Constant field elements have the sort of the field.
pub proof fn lemma_pf_lit_sort(i: int, p: int)
    requires
        p > 0,
    ensures
        sort_of(pf_lit(i, p)) == Some(SortView::Field(p)),
{
    lemma_sort_of_leaf(pf_lit(i, p).op);
    vstd::arithmetic::div_mod::lemma_mod_bound(i, p);
}

/// Constant bit-vectors have the sort of their width.
pub proof fn lemma_bv_const_sort(i: int, w: nat)
    requires
        0 <= i < pow2(w),
    ensures
        sort_of(bv_const(i, w)) == Some(SortView::BitVector(w)),
{
    lemma_sort_of_leaf(bv_const(i, w).op);
}

/// Literals are well typed.
pub proof fn law_literals_are_typed(i: int, v: int, w: nat, b: bool, p: int)
    requires
        p > 0,
        0 <= v < pow2(w),
    ensures
        well_typed(py(TyView::Field, pf_lit(i, p)), p),
        well_typed(py(TyView::Uint(w), bv_const(v, w)), p),
        well_typed(py(TyView::Bool, leaf(OpView::Const(ValueView::Bool(b)))), p),
{
    lemma_pf_lit_sort(i, p);
    lemma_bv_const_sort(v, w);
    lemma_sort_of_leaf(OpView::Const(ValueView::Bool(b)));
}

/// A power of a well-typed value is well typed.
pub proof fn law_pow_is_typed(a: PyTermView, b: PyTermView, folded: TermView, p: int)
    requires
        p > 0,
        well_typed(a, p),
    ensures
        typed_outcome(pow_value(a, b, folded, p), p),
{
    lemma_pf_lit_sort(1, p);
    if a.ty == TyView::Field {
        match pow_value(a, b, folded, p) {
            Ok(t) => {
                if t.term != pf_lit(1, p) {
                    let n = choose|n: nat| t.term == power(a.term, n);
                    lemma_power_sort(a.term, n, p);
                }
            },
            Err(_) => {},
        }
    }
}

/// A shift of a well-typed value by a constant that its width can hold is well
/// typed.
pub proof fn law_shift_is_typed(
    name: Seq<char>,
    op: BvBinOp,
    a: PyTermView,
    b: PyTermView,
    folded: TermView,
    p: int,
)
    requires
        well_typed(a, p),
        shift_fits(a, folded),
        sort_of(folded) is Some,
    ensures
        typed_outcome(shift(name, op, a, b, folded), p),
{
    match (a.ty, const_integer(folded)) {
        (TyView::Uint(w), Some(n)) => {
            lemma_constant_sort(folded);
            lemma_bv_const_sort(n, w);
            lemma_bv_binary(OpView::BvBinOp(op), a.term, bv_const(n, w), w);
        },
        _ => {},
    }
}

/// A constant that has a sort has that of its value.
proof fn lemma_constant_sort(t: TermView)
    requires
        sort_of(t) is Some,
        t.op is Const,
    ensures
        sort_of(t) == value_sort(t.op->Const_0),
{
}

/// A value replaced by the constant that its term folds to is well typed,
/// where folding keeps the sort of the term.
pub proof fn law_const_val_is_typed(a: PyTermView, folded: TermView, p: int)
    requires
        well_typed(a, p),
        sort_of(folded) == sort_of(a.term),
    ensures
        typed_outcome(const_val_value(a, folded), p),
{
    match folded.op {
        OpView::Const(v) => {
            lemma_constant_sort(folded);
            lemma_sort_of_leaf(OpView::Const(v));
        },
        _ => {},
    }
}

} // verus!
