//! Operators on Python values.
use crate::error::{Error, ErrorView};
use crate::field::{default_field, Cfg};
use crate::integer::{bit_length, bit_set, lemma_bit_length_bounds, Integer};
use crate::ir::{
    bv_const, bv_lit, leaf, leaf_term, node1, node2, node3, pf_lit, pf_lit_ir, term1, term2, term3,
    BoolNaryOp, BvBinOp, BvBinPred, BvNaryOp, BvUnOp, Op, OpView, PfNaryOp, PfUnOp, Term, TermView,
    Value, ValueView,
};
use crate::pyterm::{outcome, py, PyTerm, PyTermView};
use crate::ty::{Ty, TyView};
use vstd::arithmetic::power2::{lemma2_to64, lemma_pow2_pos, lemma_pow2_unfold, pow2};
use vstd::prelude::*;

verus! {

/// An operator on two values of one type that gives a value of that type: the
/// term it builds on unsigned integers, on field elements and on Booleans,
/// where it takes them.
pub open spec fn bin_op(
    name: Seq<char>,
    on_uint: Option<TermView>,
    on_field: Option<TermView>,
    on_bool: Option<TermView>,
    a: PyTermView,
    b: PyTermView,
) -> Result<PyTermView, ErrorView> {
    let refused = Err(ErrorView::BinaryOp(name, a.ty, b.ty));
    if a.ty != b.ty {
        refused
    } else {
        match (a.ty, on_uint, on_field, on_bool) {
            (TyView::Uint(_), Some(t), _, _) => Ok(py(a.ty, t)),
            (TyView::Field, _, Some(t), _) => Ok(py(a.ty, t)),
            (TyView::Bool, _, _, Some(t)) => Ok(py(a.ty, t)),
            _ => refused,
        }
    }
}

/// A comparison of two values of one type: the term it builds on unsigned
/// integers, on field elements and on Booleans, where it takes them.
pub open spec fn bin_pred(
    name: Seq<char>,
    on_uint: Option<TermView>,
    on_field: Option<TermView>,
    on_bool: Option<TermView>,
    a: PyTermView,
    b: PyTermView,
) -> Result<PyTermView, ErrorView> {
    match bin_op(name, on_uint, on_field, on_bool, a, b) {
        Ok(t) => Ok(py(TyView::Bool, t.term)),
        Err(e) => Err(e),
    }
}

/// An operator on one value that gives a value of its type: the term it builds
/// on an unsigned integer, on a field element and on a Boolean, where it takes
/// one.
pub open spec fn un_op(
    name: Seq<char>,
    on_uint: Option<TermView>,
    on_field: Option<TermView>,
    on_bool: Option<TermView>,
    a: PyTermView,
) -> Result<PyTermView, ErrorView> {
    match (a.ty, on_uint, on_field, on_bool) {
        (TyView::Uint(_), Some(t), _, _) => Ok(py(a.ty, t)),
        (TyView::Field, _, Some(t), _) => Ok(py(a.ty, t)),
        (TyView::Bool, _, _, Some(t)) => Ok(py(a.ty, t)),
        _ => Err(ErrorView::UnaryOp(name, a.ty)),
    }
}

/// The view of a term that may be there.
pub open spec fn opt_view(t: Option<Term>) -> Option<TermView> {
    match t {
        Some(t) => Some(t@),
        None => None,
    }
}

fn wrap_bin_op(
    name: &str,
    on_uint: Option<Term>,
    on_field: Option<Term>,
    on_bool: Option<Term>,
    a: PyTerm,
    b: PyTerm,
) -> (r: Result<PyTerm, Error>)
    ensures
        outcome(r) == bin_op(
            name@,
            opt_view(on_uint),
            opt_view(on_field),
            opt_view(on_bool),
            a@,
            b@,
        ),
{
    match (&a.ty, &b.ty, on_uint, on_field, on_bool) {
        (Ty::Uint(na), Ty::Uint(nb), Some(t), _, _) if *na == *nb => Ok(
            PyTerm::new(Ty::Uint(*na), t),
        ),
        (Ty::Bool, Ty::Bool, _, _, Some(t)) => Ok(PyTerm::new(Ty::Bool, t)),
        (Ty::Field, Ty::Field, _, Some(t), _) => Ok(PyTerm::new(Ty::Field, t)),
        (x, y, _, _, _) => Err(Error::BinaryOp(name.to_owned(), x.clone(), y.clone())),
    }
}

fn wrap_bin_pred(
    name: &str,
    on_uint: Option<Term>,
    on_field: Option<Term>,
    on_bool: Option<Term>,
    a: PyTerm,
    b: PyTerm,
) -> (r: Result<PyTerm, Error>)
    ensures
        outcome(r) == bin_pred(
            name@,
            opt_view(on_uint),
            opt_view(on_field),
            opt_view(on_bool),
            a@,
            b@,
        ),
{
    match (&a.ty, &b.ty, on_uint, on_field, on_bool) {
        (Ty::Uint(na), Ty::Uint(nb), Some(t), _, _) if *na == *nb => Ok(PyTerm::new(Ty::Bool, t)),
        (Ty::Bool, Ty::Bool, _, _, Some(t)) => Ok(PyTerm::new(Ty::Bool, t)),
        (Ty::Field, Ty::Field, _, Some(t), _) => Ok(PyTerm::new(Ty::Bool, t)),
        (x, y, _, _, _) => Err(Error::BinaryOp(name.to_owned(), x.clone(), y.clone())),
    }
}

fn wrap_un_op(
    name: &str,
    on_uint: Option<Term>,
    on_field: Option<Term>,
    on_bool: Option<Term>,
    a: PyTerm,
) -> (r: Result<PyTerm, Error>)
    ensures
        outcome(r) == un_op(name@, opt_view(on_uint), opt_view(on_field), opt_view(on_bool), a@),
{
    match (&a.ty, on_uint, on_field, on_bool) {
        (Ty::Uint(_), Some(t), _, _) => Ok(PyTerm::new(a.ty.clone(), t)),
        (Ty::Bool, _, _, Some(t)) => Ok(PyTerm::new(Ty::Bool, t)),
        (Ty::Field, _, Some(t), _) => Ok(PyTerm::new(Ty::Field, t)),
        (x, _, _, _) => Err(Error::UnaryOp(name.to_owned(), x.clone())),
    }
}

/// The remainder of two field elements, divided as numbers.
pub open spec fn field_rem(a: TermView, b: TermView, p: int) -> TermView {
    let len = bit_length(p as nat);
    node1(
        OpView::UbvToPf(p),
        node2(
            OpView::BvBinOp(BvBinOp::Urem),
            node1(OpView::PfToBv(len), a),
            node1(OpView::PfToBv(len), b),
        ),
    )
}

/// Two field elements, compared as numbers.
pub open spec fn field_pred(pred: BvBinPred, a: TermView, b: TermView, p: int) -> TermView {
    let len = bit_length(p as nat);
    node2(
        OpView::BvBinPred(pred),
        node1(OpView::PfToBv(len), a),
        node1(OpView::PfToBv(len), b),
    )
}

fn rem_field(a: Term, b: Term, cfg: &Cfg) -> (r: Term)
    ensures
        r@ == field_rem(a@, b@, cfg@),
{
    let len: usize = cfg.field().modulus().significant_bits() as usize;
    let a_bv = term1(Op::PfToBv(len), a);
    let b_bv = term1(Op::PfToBv(len), b);
    term1(Op::UbvToPf(default_field(cfg)), term2(Op::BvBinOp(BvBinOp::Urem), a_bv, b_bv))
}

fn field_comp(a: Term, b: Term, op: BvBinPred, cfg: &Cfg) -> (r: Term)
    ensures
        r@ == field_pred(op, a@, b@, cfg@),
{
    let len: usize = cfg.field().modulus().significant_bits() as usize;
    let a_bv = term1(Op::PfToBv(len), a);
    let b_bv = term1(Op::PfToBv(len), b);
    term2(Op::BvBinPred(op), a_bv, b_bv)
}

fn sub_field(a: Term, b: Term) -> (r: Term)
    ensures
        r@ == node2(OpView::PfNaryOp(PfNaryOp::Add), a@, node1(OpView::PfUnOp(PfUnOp::Neg), b@)),
{
    term2(Op::PfNaryOp(PfNaryOp::Add), a, term1(Op::PfUnOp(PfUnOp::Neg), b))
}

fn mul_field(a: Term, b: Term) -> (r: Term)
    ensures
        r@ == node2(OpView::PfNaryOp(PfNaryOp::Mul), a@, b@),
{
    term2(Op::PfNaryOp(PfNaryOp::Mul), a, b)
}

fn div_field(a: Term, b: Term) -> (r: Term)
    ensures
        r@ == node2(OpView::PfNaryOp(PfNaryOp::Mul), a@, node1(OpView::PfUnOp(PfUnOp::Recip), b@)),
{
    term2(Op::PfNaryOp(PfNaryOp::Mul), a, term1(Op::PfUnOp(PfUnOp::Recip), b))
}

/// What `add` gives.
pub open spec fn add_value(a: PyTermView, b: PyTermView) -> Result<PyTermView, ErrorView> {
    bin_op(
        "+"@,
        Some(node2(OpView::BvNaryOp(BvNaryOp::Add), a.term, b.term)),
        Some(node2(OpView::PfNaryOp(PfNaryOp::Add), a.term, b.term)),
        None,
        a,
        b,
    )
}

/// The sum.
pub fn add(a: PyTerm, b: PyTerm) -> (r: Result<PyTerm, Error>)
    ensures
        outcome(r) == add_value(a@, b@),
{
    wrap_bin_op(
        "+",
        Some(term2(Op::BvNaryOp(BvNaryOp::Add), a.term.clone(), b.term.clone())),
        Some(term2(Op::PfNaryOp(PfNaryOp::Add), a.term.clone(), b.term.clone())),
        None,
        a,
        b,
    )
}

/// What `sub` gives.
pub open spec fn sub_value(a: PyTermView, b: PyTermView) -> Result<PyTermView, ErrorView> {
    bin_op(
        "-"@,
        Some(node2(OpView::BvBinOp(BvBinOp::Sub), a.term, b.term)),
        Some(node2(OpView::PfNaryOp(PfNaryOp::Add), a.term, node1(OpView::PfUnOp(PfUnOp::Neg), b.term))),
        None,
        a,
        b,
    )
}

/// The difference: on field elements, the sum with the negative.
pub fn sub(a: PyTerm, b: PyTerm) -> (r: Result<PyTerm, Error>)
    ensures
        outcome(r) == sub_value(a@, b@),
{
    wrap_bin_op(
        "-",
        Some(term2(Op::BvBinOp(BvBinOp::Sub), a.term.clone(), b.term.clone())),
        Some(sub_field(a.term.clone(), b.term.clone())),
        None,
        a,
        b,
    )
}

/// What `mul` gives.
pub open spec fn mul_value(a: PyTermView, b: PyTermView) -> Result<PyTermView, ErrorView> {
    bin_op(
        "*"@,
        Some(node2(OpView::BvNaryOp(BvNaryOp::Mul), a.term, b.term)),
        Some(node2(OpView::PfNaryOp(PfNaryOp::Mul), a.term, b.term)),
        None,
        a,
        b,
    )
}

/// The product.
pub fn mul(a: PyTerm, b: PyTerm) -> (r: Result<PyTerm, Error>)
    ensures
        outcome(r) == mul_value(a@, b@),
{
    wrap_bin_op(
        "*",
        Some(term2(Op::BvNaryOp(BvNaryOp::Mul), a.term.clone(), b.term.clone())),
        Some(mul_field(a.term.clone(), b.term.clone())),
        None,
        a,
        b,
    )
}

/// What `div` gives.
pub open spec fn div_value(a: PyTermView, b: PyTermView) -> Result<PyTermView, ErrorView> {
    bin_op(
        "/"@,
        Some(node2(OpView::BvBinOp(BvBinOp::Udiv), a.term, b.term)),
        Some(node2(OpView::PfNaryOp(PfNaryOp::Mul), a.term, node1(OpView::PfUnOp(PfUnOp::Recip), b.term))),
        None,
        a,
        b,
    )
}

/// The quotient: on field elements, the product with the reciprocal.
pub fn div(a: PyTerm, b: PyTerm) -> (r: Result<PyTerm, Error>)
    ensures
        outcome(r) == div_value(a@, b@),
{
    wrap_bin_op(
        "/",
        Some(term2(Op::BvBinOp(BvBinOp::Udiv), a.term.clone(), b.term.clone())),
        Some(div_field(a.term.clone(), b.term.clone())),
        None,
        a,
        b,
    )
}

/// What `rem` gives.
pub open spec fn rem_value(a: PyTermView, b: PyTermView, p: int) -> Result<PyTermView, ErrorView> {
    bin_op(
        "%"@,
        Some(node2(OpView::BvBinOp(BvBinOp::Urem), a.term, b.term)),
        Some(field_rem(a.term, b.term, p)),
        None,
        a,
        b,
    )
}

/// The remainder: field elements are divided as numbers.
pub fn rem(a: PyTerm, b: PyTerm, cfg: &Cfg) -> (r: Result<PyTerm, Error>)
    ensures
        outcome(r) == rem_value(a@, b@, cfg@),
{
    wrap_bin_op(
        "%",
        Some(term2(Op::BvBinOp(BvBinOp::Urem), a.term.clone(), b.term.clone())),
        Some(rem_field(a.term.clone(), b.term.clone(), cfg)),
        None,
        a,
        b,
    )
}

/// What `bitand` gives.
pub open spec fn bitand_value(a: PyTermView, b: PyTermView) -> Result<PyTermView, ErrorView> {
    bin_op(
        "&"@,
        Some(node2(OpView::BvNaryOp(BvNaryOp::And), a.term, b.term)),
        None,
        None,
        a,
        b,
    )
}

/// The bits that both have.
pub fn bitand(a: PyTerm, b: PyTerm) -> (r: Result<PyTerm, Error>)
    ensures
        outcome(r) == bitand_value(a@, b@),
{
    wrap_bin_op(
        "&",
        Some(term2(Op::BvNaryOp(BvNaryOp::And), a.term.clone(), b.term.clone())),
        None,
        None,
        a,
        b,
    )
}

/// What `bitor` gives.
pub open spec fn bitor_value(a: PyTermView, b: PyTermView) -> Result<PyTermView, ErrorView> {
    bin_op(
        "|"@,
        Some(node2(OpView::BvNaryOp(BvNaryOp::Or), a.term, b.term)),
        None,
        None,
        a,
        b,
    )
}

/// The bits that either has.
pub fn bitor(a: PyTerm, b: PyTerm) -> (r: Result<PyTerm, Error>)
    ensures
        outcome(r) == bitor_value(a@, b@),
{
    wrap_bin_op(
        "|",
        Some(term2(Op::BvNaryOp(BvNaryOp::Or), a.term.clone(), b.term.clone())),
        None,
        None,
        a,
        b,
    )
}

/// What `bitxor` gives.
pub open spec fn bitxor_value(a: PyTermView, b: PyTermView) -> Result<PyTermView, ErrorView> {
    bin_op(
        "^"@,
        Some(node2(OpView::BvNaryOp(BvNaryOp::Xor), a.term, b.term)),
        None,
        None,
        a,
        b,
    )
}

/// The bits that one of the two has.
pub fn bitxor(a: PyTerm, b: PyTerm) -> (r: Result<PyTerm, Error>)
    ensures
        outcome(r) == bitxor_value(a@, b@),
{
    wrap_bin_op(
        "^",
        Some(term2(Op::BvNaryOp(BvNaryOp::Xor), a.term.clone(), b.term.clone())),
        None,
        None,
        a,
        b,
    )
}

/// What `or` gives.
pub open spec fn or_value(a: PyTermView, b: PyTermView) -> Result<PyTermView, ErrorView> {
    bin_op(
        "or"@,
        None,
        None,
        Some(node2(OpView::BoolNaryOp(BoolNaryOp::Or), a.term, b.term)),
        a,
        b,
    )
}

/// Whether either is true.
pub fn or(a: PyTerm, b: PyTerm) -> (r: Result<PyTerm, Error>)
    ensures
        outcome(r) == or_value(a@, b@),
{
    wrap_bin_op(
        "or",
        None,
        None,
        Some(term2(Op::BoolNaryOp(BoolNaryOp::Or), a.term.clone(), b.term.clone())),
        a,
        b,
    )
}

/// What `and` gives.
pub open spec fn and_value(a: PyTermView, b: PyTermView) -> Result<PyTermView, ErrorView> {
    bin_op(
        "and"@,
        None,
        None,
        Some(node2(OpView::BoolNaryOp(BoolNaryOp::And), a.term, b.term)),
        a,
        b,
    )
}

/// Whether both are true.
pub fn and(a: PyTerm, b: PyTerm) -> (r: Result<PyTerm, Error>)
    ensures
        outcome(r) == and_value(a@, b@),
{
    wrap_bin_op(
        "and",
        None,
        None,
        Some(term2(Op::BoolNaryOp(BoolNaryOp::And), a.term.clone(), b.term.clone())),
        a,
        b,
    )
}

/// What `ult` gives.
pub open spec fn ult_value(a: PyTermView, b: PyTermView, p: int) -> Result<PyTermView, ErrorView> {
    bin_pred(
        "<"@,
        Some(node2(OpView::BvBinPred(BvBinPred::Ult), a.term, b.term)),
        Some(field_pred(BvBinPred::Ult, a.term, b.term, p)),
        None,
        a,
        b,
    )
}

/// Whether the first is below the second: field elements are compared as numbers.
pub fn ult(a: PyTerm, b: PyTerm, cfg: &Cfg) -> (r: Result<PyTerm, Error>)
    ensures
        outcome(r) == ult_value(a@, b@, cfg@),
{
    wrap_bin_pred(
        "<",
        Some(term2(Op::BvBinPred(BvBinPred::Ult), a.term.clone(), b.term.clone())),
        Some(field_comp(a.term.clone(), b.term.clone(), BvBinPred::Ult, cfg)),
        None,
        a,
        b,
    )
}

/// What `ule` gives.
pub open spec fn ule_value(a: PyTermView, b: PyTermView, p: int) -> Result<PyTermView, ErrorView> {
    bin_pred(
        "<="@,
        Some(node2(OpView::BvBinPred(BvBinPred::Ule), a.term, b.term)),
        Some(field_pred(BvBinPred::Ule, a.term, b.term, p)),
        None,
        a,
        b,
    )
}

/// Whether the first is at most the second: field elements are compared as numbers.
pub fn ule(a: PyTerm, b: PyTerm, cfg: &Cfg) -> (r: Result<PyTerm, Error>)
    ensures
        outcome(r) == ule_value(a@, b@, cfg@),
{
    wrap_bin_pred(
        "<=",
        Some(term2(Op::BvBinPred(BvBinPred::Ule), a.term.clone(), b.term.clone())),
        Some(field_comp(a.term.clone(), b.term.clone(), BvBinPred::Ule, cfg)),
        None,
        a,
        b,
    )
}

/// What `ugt` gives.
pub open spec fn ugt_value(a: PyTermView, b: PyTermView, p: int) -> Result<PyTermView, ErrorView> {
    bin_pred(
        ">"@,
        Some(node2(OpView::BvBinPred(BvBinPred::Ugt), a.term, b.term)),
        Some(field_pred(BvBinPred::Ugt, a.term, b.term, p)),
        None,
        a,
        b,
    )
}

/// Whether the first is above the second: field elements are compared as numbers.
pub fn ugt(a: PyTerm, b: PyTerm, cfg: &Cfg) -> (r: Result<PyTerm, Error>)
    ensures
        outcome(r) == ugt_value(a@, b@, cfg@),
{
    wrap_bin_pred(
        ">",
        Some(term2(Op::BvBinPred(BvBinPred::Ugt), a.term.clone(), b.term.clone())),
        Some(field_comp(a.term.clone(), b.term.clone(), BvBinPred::Ugt, cfg)),
        None,
        a,
        b,
    )
}

/// What `uge` gives.
pub open spec fn uge_value(a: PyTermView, b: PyTermView, p: int) -> Result<PyTermView, ErrorView> {
    bin_pred(
        ">="@,
        Some(node2(OpView::BvBinPred(BvBinPred::Uge), a.term, b.term)),
        Some(field_pred(BvBinPred::Uge, a.term, b.term, p)),
        None,
        a,
        b,
    )
}

/// Whether the first is at least the second: field elements are compared as numbers.
pub fn uge(a: PyTerm, b: PyTerm, cfg: &Cfg) -> (r: Result<PyTerm, Error>)
    ensures
        outcome(r) == uge_value(a@, b@, cfg@),
{
    wrap_bin_pred(
        ">=",
        Some(term2(Op::BvBinPred(BvBinPred::Uge), a.term.clone(), b.term.clone())),
        Some(field_comp(a.term.clone(), b.term.clone(), BvBinPred::Uge, cfg)),
        None,
        a,
        b,
    )
}

/// What `neg` gives.
pub open spec fn neg_value(a: PyTermView) -> Result<PyTermView, ErrorView> {
    un_op(
        "unary-"@,
        Some(node1(OpView::BvUnOp(BvUnOp::Neg), a.term)),
        Some(node1(OpView::PfUnOp(PfUnOp::Neg), a.term)),
        None,
        a,
    )
}

/// The negative.
pub fn neg(a: PyTerm) -> (r: Result<PyTerm, Error>)
    ensures
        outcome(r) == neg_value(a@),
{
    wrap_un_op(
        "unary-",
        Some(term1(Op::BvUnOp(BvUnOp::Neg), a.term.clone())),
        Some(term1(Op::PfUnOp(PfUnOp::Neg), a.term.clone())),
        None,
        a,
    )
}

fn not_bool(a: Term) -> (r: Term)
    ensures
        r@ == node1(OpView::Not, a@),
{
    term1(Op::Not, a)
}

/// What `not` gives.
pub open spec fn not_value(a: PyTermView) -> Result<PyTermView, ErrorView> {
    un_op(
        "not"@,
        Some(node1(OpView::BvUnOp(BvUnOp::Not), a.term)),
        None,
        Some(node1(OpView::Not, a.term)),
        a,
    )
}

/// The opposite Boolean, or all bits flipped.
pub fn not(a: PyTerm) -> (r: Result<PyTerm, Error>)
    ensures
        outcome(r) == not_value(a@),
{
    wrap_un_op(
        "not",
        Some(term1(Op::BvUnOp(BvUnOp::Not), a.term.clone())),
        None,
        Some(not_bool(a.term.clone())),
        a,
    )
}

/// The equation of two values of one type.
pub open spec fn equation(a: PyTermView, b: PyTermView) -> Result<TermView, ErrorView> {
    if a.ty != b.ty {
        Err(ErrorView::Dissimilar(a.ty, b.ty))
    } else {
        Ok(node2(OpView::Eq, a.term, b.term))
    }
}

fn eq_base(a: PyTerm, b: PyTerm) -> (r: Result<Term, Error>)
    ensures
        match r {
            Ok(t) => equation(a@, b@) == Ok::<TermView, ErrorView>(t@),
            Err(e) => equation(a@, b@) == Err::<TermView, ErrorView>(e@),
        },
{
    if a.ty != b.ty {
        Err(Error::Dissimilar(a.type_().clone(), b.type_().clone()))
    } else {
        Ok(term2(Op::Eq, a.term, b.term))
    }
}

/// What `eq` gives.
pub open spec fn eq_value(a: PyTermView, b: PyTermView) -> Result<PyTermView, ErrorView> {
    match equation(a, b) {
        Ok(t) => Ok(py(TyView::Bool, t)),
        Err(e) => Err(e),
    }
}

/// Whether two values of one type are equal.
pub fn eq(a: PyTerm, b: PyTerm) -> (r: Result<PyTerm, Error>)
    ensures
        outcome(r) == eq_value(a@, b@),
{
    match eq_base(a, b) {
        Ok(t) => Ok(PyTerm::new(Ty::Bool, t)),
        Err(e) => Err(e),
    }
}

/// What `neq` gives.
pub open spec fn neq_value(a: PyTermView, b: PyTermView) -> Result<PyTermView, ErrorView> {
    match equation(a, b) {
        Ok(t) => Ok(py(TyView::Bool, node1(OpView::Not, t))),
        Err(e) => Err(e),
    }
}

/// Whether two values of one type differ.
pub fn neq(a: PyTerm, b: PyTerm) -> (r: Result<PyTerm, Error>)
    ensures
        outcome(r) == neq_value(a@, b@),
{
    match eq_base(a, b) {
        Ok(t) => Ok(PyTerm::new(Ty::Bool, not_bool(t))),
        Err(e) => Err(e),
    }
}

/// The constant that a term is.
pub open spec fn constant(t: TermView) -> Option<ValueView> {
    match t.op {
        OpView::Const(v) => Some(v),
        _ => None,
    }
}

/// The integer that a constant term is: a field element or a bit-vector.
pub open spec fn const_integer(t: TermView) -> Option<int> {
    match constant(t) {
        Some(ValueView::Field(f)) => Some(f.value),
        Some(ValueView::BitVector(b)) => Some(b.uint),
        _ => None,
    }
}

/// The constant that a folded term is.
pub fn const_value(folded: &Term) -> (r: Option<Value>)
    ensures
        match r {
            Some(v) => constant(folded@) == Some(v@),
            None => constant(folded@) is None,
        },
{
    match folded.op() {
        Op::Const(v) => Some(v.clone()),
        _ => None,
    }
}

/// The integer that a value is, where `folded` is its term with constants
/// folded.
pub fn const_int(a: PyTerm, folded: &Term) -> (r: Result<Integer, Error>)
    ensures
        match r {
            Ok(i) => const_integer(folded@) == Some(i@) && i@ >= 0,
            Err(e) => const_integer(folded@) is None && e@ == ErrorView::NotConstInt(a@.term),
        },
{
    match const_value(folded) {
        Some(Value::Field(f)) => Ok(f.i()),
        Some(Value::BitVector(b)) => Ok(b.uint().clone()),
        _ => Err(Error::NotConstInt(a.term)),
    }
}

/// The Boolean that a folded term is.
pub fn const_bool(folded: &Term) -> (r: Option<bool>)
    ensures
        r == match constant(folded@) {
            Some(ValueView::Bool(b)) => Some(b),
            _ => None,
        },
{
    match const_value(folded) {
        Some(Value::Bool(b)) => Some(b),
        _ => None,
    }
}

/// What `const_val` gives.
pub open spec fn const_val_value(a: PyTermView, folded: TermView) -> Result<PyTermView, ErrorView> {
    match constant(folded) {
        Some(v) => Ok(py(a.ty, leaf(OpView::Const(v)))),
        None => Err(ErrorView::NotConstValue(a.term)),
    }
}

/// A value as a constant, where `folded` is its term with constants folded.
pub fn const_val(a: PyTerm, folded: &Term) -> (r: Result<PyTerm, Error>)
    ensures
        outcome(r) == const_val_value(a@, folded@),
{
    match const_value(folded) {
        Some(v) => Ok(PyTerm::new(a.ty, leaf_term(Op::Const(v)))),
        None => Err(Error::NotConstValue(a.term)),
    }
}

/// The product of `n` copies of `a`: the square of half as many, and one more
/// where `n` is odd.
pub open spec fn power(a: TermView, n: nat) -> TermView
    decreases n,
{
    if n <= 1 {
        a
    } else {
        let half = power(a, n / 2);
        let square = node2(OpView::PfNaryOp(PfNaryOp::Mul), half, half);
        if n % 2 == 1 {
            node2(OpView::PfNaryOp(PfNaryOp::Mul), square, a)
        } else {
            square
        }
    }
}

/// What `pow` gives.
pub open spec fn pow_value(a: PyTermView, b: PyTermView, folded: TermView, p: int) -> Result<
    PyTermView,
    ErrorView,
> {
    if a.ty != TyView::Field || b.ty != TyView::Uint(32) {
        Err(ErrorView::Power(a.term, b.term))
    } else {
        match const_integer(folded) {
            Some(n) => if n == 0 {
                Ok(py(TyView::Field, pf_lit(1, p)))
            } else {
                Ok(py(TyView::Field, power(a.term, n as nat)))
            },
            None => Err(ErrorView::NotConstInt(b.term)),
        }
    }
}

/// A field element raised to a constant power, where `folded` is the term of
/// the exponent with constants folded.
pub fn pow(a: PyTerm, b: PyTerm, folded: &Term, cfg: &Cfg) -> (r: Result<PyTerm, Error>)
    ensures
        outcome(r) == pow_value(a@, b@, folded@, cfg@),
{
    if a.ty != Ty::Field || b.ty != Ty::Uint(32) {
        return Err(Error::Power(a.term, b.term));
    }
    let a = a.term;
    let b = match const_int(b, folded) {
        Ok(b) => b,
        Err(e) => {
            return Err(e);
        },
    };
    if b.is_zero() {
        return Ok(field_lit(Integer::from_u64(1), cfg));
    }
    let ghost n = b@ as nat;
    let bits: u32 = b.significant_bits();
    proof {
        lemma_bit_length_bounds(n);
        lemma_top_bit(n, (bits - 1) as nat);
    }
    let mut acc = a.clone();
    let mut ix: u32 = bits - 1;
    while ix > 0
        invariant
            b@ == n,
            b@ >= 0,
            acc@ == power(a@, n / pow2(ix as nat)),
            n / pow2(ix as nat) >= 1,
        decreases ix,
    {
        ix -= 1;
        proof {
            lemma_next_bit(n, ix as nat);
        }
        acc = mul_field(acc.clone(), acc);
        if b.get_bit(ix) {
            acc = mul_field(acc, a.clone());
        }
    }
    proof {
        lemma2_to64();
        assert(pow2(ix as nat) == 1);
        assert(n / pow2(ix as nat) == n);
        assert(acc@ == power(a@, n));
    }
    Ok(PyTerm::new(Ty::Field, acc))
}

/// What is left of a number above its top bit is one.
proof fn lemma_top_bit(n: nat, k: nat)
    requires
        pow2(k) <= n < pow2(k + 1),
    ensures
        n / pow2(k) == 1,
{
    lemma_pow2_pos(k);
    lemma_pow2_unfold(k + 1);
    vstd::arithmetic::div_mod::lemma_fundamental_div_mod_converse(
        n as int,
        pow2(k) as int,
        1,
        n - pow2(k),
    );
}

/// Going one bit down doubles what is left of a number, and adds the bit.
proof fn lemma_next_bit(n: nat, k: nat)
    ensures
        n / pow2(k) == 2 * (n / pow2(k + 1)) + (if bit_set(n, k) {
            1int
        } else {
            0
        }),
{
    lemma_pow2_pos(k);
    lemma_pow2_unfold(k + 1);
    vstd::arithmetic::div_mod::lemma_div_denominator(n as int, pow2(k) as int, 2);
    assert(pow2(k) * 2 == pow2(k + 1));
}

/// The term of a Boolean value.
pub open spec fn boolean(a: PyTermView) -> Result<TermView, ErrorView> {
    match a.ty {
        TyView::Bool => Ok(a.term),
        ty => Err(ErrorView::NotBool(ty)),
    }
}

/// The term of a Boolean value.
pub fn bool(a: PyTerm) -> (r: Result<Term, Error>)
    ensures
        match r {
            Ok(t) => boolean(a@) == Ok::<TermView, ErrorView>(t@),
            Err(e) => boolean(a@) == Err::<TermView, ErrorView>(e@),
        },
{
    match a.ty {
        Ty::Bool => Ok(a.term),
        ty => Err(Error::NotBool(ty)),
    }
}

/// An unsigned integer shifted by a constant.
pub open spec fn shift(
    name: Seq<char>,
    op: BvBinOp,
    a: PyTermView,
    b: PyTermView,
    folded: TermView,
) -> Result<PyTermView, ErrorView> {
    match const_integer(folded) {
        Some(n) => match a.ty {
            TyView::Uint(w) => Ok(py(a.ty, node2(OpView::BvBinOp(op), a.term, bv_const(n, w)))),
            ty => Err(ErrorView::Shift(name, ty, n)),
        },
        None => Err(ErrorView::NotConstInt(b.term)),
    }
}

/// Whether a constant that an unsigned integer is shifted by fits in as many
/// bits as it has.
pub open spec fn shift_fits(a: PyTermView, folded: TermView) -> bool {
    match (a.ty, const_integer(folded)) {
        (TyView::Uint(w), Some(n)) => n < pow2(w),
        _ => true,
    }
}

fn wrap_shift(
    name: &str,
    op: BvBinOp,
    a: PyTerm,
    b: PyTerm,
    folded: &Term,
) -> (r: Result<PyTerm, Error>)
    requires
        shift_fits(a@, folded@),
    ensures
        outcome(r) == shift(name@, op, a@, b@, folded@),
{
    let bc = match const_int(b, folded) {
        Ok(bc) => bc,
        Err(e) => {
            return Err(e);
        },
    };
    match a.ty {
        Ty::Uint(na) => Ok(
            PyTerm::new(Ty::Uint(na), term2(Op::BvBinOp(op), a.term, bv_lit(bc, na))),
        ),
        x => Err(Error::Shift(name.to_owned(), x, bc)),
    }
}

/// An unsigned integer shifted towards the most significant bit, where
/// `folded` is the term of the distance with constants folded.
pub fn shl(a: PyTerm, b: PyTerm, folded: &Term) -> (r: Result<PyTerm, Error>)
    requires
        shift_fits(a@, folded@),
    ensures
        outcome(r) == shift("<<"@, BvBinOp::Shl, a@, b@, folded@),
{
    wrap_shift("<<", BvBinOp::Shl, a, b, folded)
}

/// An unsigned integer shifted towards the least significant bit, where
/// `folded` is the term of the distance with constants folded.
pub fn shr(a: PyTerm, b: PyTerm, folded: &Term) -> (r: Result<PyTerm, Error>)
    requires
        shift_fits(a@, folded@),
    ensures
        outcome(r) == shift(">>"@, BvBinOp::Lshr, a@, b@, folded@),
{
    wrap_shift(">>", BvBinOp::Lshr, a, b, folded)
}

/// One of two values of one type, as a condition is true or false.
pub open spec fn choice(c: TermView, a: PyTermView, b: PyTermView) -> Result<
    PyTermView,
    ErrorView,
> {
    if a.ty != b.ty {
        Err(ErrorView::Ite(a.term, b.term))
    } else {
        Ok(py(a.ty, node3(OpView::Ite, c, a.term, b.term)))
    }
}

/// One of two values of one type, as a condition is true or false.
pub fn ite(c: Term, a: PyTerm, b: PyTerm) -> (r: Result<PyTerm, Error>)
    ensures
        outcome(r) == choice(c@, a@, b@),
{
    if a.ty != b.ty {
        Err(Error::Ite(a.term, b.term))
    } else {
        Ok(PyTerm::new(a.ty, term3(Op::Ite, c, a.term, b.term)))
    }
}

/// What `cond` gives.
pub open spec fn cond_value(c: PyTermView, a: PyTermView, b: PyTermView) -> Result<
    PyTermView,
    ErrorView,
> {
    match boolean(c) {
        Ok(t) => choice(t, a, b),
        Err(e) => Err(e),
    }
}

/// One of two values of one type, as a Boolean value is true or false.
pub fn cond(c: PyTerm, a: PyTerm, b: PyTerm) -> (r: Result<PyTerm, Error>)
    ensures
        outcome(r) == cond_value(c@, a@, b@),
{
    match bool(c) {
        Ok(c) => ite(c, a, b),
        Err(e) => Err(e),
    }
}

/// The field element that `i` stands for.
pub fn field_lit(i: Integer, cfg: &Cfg) -> (r: PyTerm)
    ensures
        r@ == py(TyView::Field, pf_lit(i@, cfg@)),
{
    PyTerm::new(Ty::Field, pf_lit_ir(&i, cfg))
}

/// The Boolean `v`.
pub fn py_bool_lit(v: bool) -> (r: PyTerm)
    ensures
        r@ == py(TyView::Bool, leaf(OpView::Const(ValueView::Bool(v)))),
{
    PyTerm::new(Ty::Bool, leaf_term(Op::Const(Value::Bool(v))))
}

/// The unsigned integer `v` of the given width.
pub fn uint_lit(v: Integer, bits: usize) -> (r: PyTerm)
    requires
        0 <= v@ < pow2(bits as nat),
    ensures
        r@ == py(TyView::Uint(bits as nat), bv_const(v@, bits as nat)),
{
    PyTerm::new(Ty::Uint(bits), bv_lit(v, bits))
}

} // verus!
