//! What operations on numbers and Booleans mean.
use crate::bits::to_field;
use crate::error::ErrorView;
use crate::integer::{bit_length, lemma_bit_length_bounds};
use crate::ir::{
    bv_const, leaf, node1, node2, pf_lit, BoolNaryOp, BvBinOp, BvBinPred, BvNaryOp, BvUnOp, OpView,
    PfNaryOp, PfUnOp, TermView, ValueView,
};
use crate::meaning::{
    all_bits, all_combined, all_fields, bitwise, bv, combined, eval, fe, field_product, field_sum,
    holds, is_recip, lemma_eval1, lemma_eval2, lemma_eval3, lemma_eval_const,
};
use crate::ops::{
    add_value, and_value, bitand_value, bitor_value, bitxor_value, cond_value, const_integer,
    constant, const_val_value, div_value, eq_value, field_pred, mul_value, neg_value, neq_value,
    not_value, or_value, pow_value, power, rem_value, shift, sub_value, uge_value, ugt_value,
    ule_value, ult_value,
};
use crate::pyterm::{py, PyTermView};
use crate::ty::TyView;
use vstd::arithmetic::div_mod::{
    lemma_add_mod_noop, lemma_div_pos_is_pos, lemma_fundamental_div_mod, lemma_mod_bound,
    lemma_mod_multiples_vanish, lemma_mul_mod_noop, lemma_mul_mod_noop_right, lemma_small_mod,
};
use vstd::arithmetic::power2::{lemma_pow2_pos, pow2};
use vstd::arithmetic::power::{lemma_pow1, lemma_pow_adds, pow};
use vstd::prelude::*;

verus! {

/// How many numbers a type of numbers has.
pub open spec fn size(ty: TyView, p: int) -> int {
    match ty {
        TyView::Field => p,
        TyView::Uint(w) => pow2(w) as int,
        _ => 0,
    }
}

/// Whether a value is the number `x`.
pub open spec fn number(t: PyTermView, x: int, env: Map<Seq<char>, ValueView>, p: int) -> bool {
    &&& 0 <= x < size(t.ty, p)
    &&& match t.ty {
        TyView::Field => eval(t.term, env) == Some(fe(x, p)),
        TyView::Uint(w) => eval(t.term, env) == Some(bv(x, w)),
        _ => false,
    }
}

/// Whether a value is the Boolean `b`.
pub open spec fn truth(t: PyTermView, b: bool, env: Map<Seq<char>, ValueView>) -> bool {
    t.ty == TyView::Bool && eval(t.term, env) == Some(ValueView::Bool(b))
}

/// Whether an operation gives the number `x` of a type.
pub open spec fn gives_number(
    r: Result<PyTermView, ErrorView>,
    ty: TyView,
    x: int,
    env: Map<Seq<char>, ValueView>,
    p: int,
) -> bool {
    r is Ok && r->Ok_0.ty == ty && number(r->Ok_0, x, env, p)
}

/// Whether an operation gives the Boolean `b`.
pub open spec fn gives_truth(
    r: Result<PyTermView, ErrorView>,
    b: bool,
    env: Map<Seq<char>, ValueView>,
) -> bool {
    r is Ok && truth(r->Ok_0, b, env)
}

proof fn lemma_field_pair(x: int, y: int, p: int)
    ensures
        all_fields(seq![fe(x, p), fe(y, p)], p),
        field_sum(seq![fe(x, p), fe(y, p)]) == x + y,
        field_product(seq![fe(x, p), fe(y, p)]) == x * y,
{
    let vs = seq![fe(x, p), fe(y, p)];
    assert(vs.drop_last() =~= seq![fe(x, p)]);
    assert(seq![fe(x, p)].drop_last() =~= Seq::empty());
    assert(field_sum(seq![fe(x, p)]) == x) by {
        reveal_with_fuel(field_sum, 2);
    }
    assert(field_product(seq![fe(x, p)]) == x) by {
        reveal_with_fuel(field_product, 2);
    }
}

proof fn lemma_bits_pair(op: BvNaryOp, x: int, y: int, w: nat)
    ensures
        all_bits(seq![bv(x, w), bv(y, w)], w),
        all_combined(op, seq![bv(x, w), bv(y, w)], w) == combined(op, x, y, w),
{
    let vs = seq![bv(x, w), bv(y, w)];
    assert(vs.drop_last() =~= seq![bv(x, w)]);
    reveal_with_fuel(all_combined, 2);
}

/// The sum of two numbers of one type is their sum modulo the size of the type.
pub proof fn law_add_means(
    a: PyTermView,
    b: PyTermView,
    x: int,
    y: int,
    env: Map<Seq<char>, ValueView>,
    p: int,
)
    requires
        a.ty == b.ty,
        number(a, x, env, p),
        number(b, y, env, p),
    ensures
        gives_number(add_value(a, b), a.ty, (x + y) % size(a.ty, p), env, p),
{
    lemma_mod_bound(x + y, size(a.ty, p));
    match a.ty {
        TyView::Field => {
            lemma_field_pair(x, y, p);
            lemma_eval2(
                OpView::PfNaryOp(PfNaryOp::Add),
                a.term,
                b.term,
                fe(x, p),
                fe(y, p),
                env,
            );
        },
        TyView::Uint(w) => {
            lemma_bits_pair(BvNaryOp::Add, x, y, w);
            lemma_eval2(
                OpView::BvNaryOp(BvNaryOp::Add),
                a.term,
                b.term,
                bv(x, w),
                bv(y, w),
                env,
            );
        },
        _ => {},
    }
}

/// The difference of two numbers of one type is their difference modulo the
/// size of the type.
pub proof fn law_sub_means(
    a: PyTermView,
    b: PyTermView,
    x: int,
    y: int,
    env: Map<Seq<char>, ValueView>,
    p: int,
)
    requires
        a.ty == b.ty,
        number(a, x, env, p),
        number(b, y, env, p),
    ensures
        gives_number(sub_value(a, b), a.ty, (x - y) % size(a.ty, p), env, p),
{
    lemma_mod_bound(x - y, size(a.ty, p));
    match a.ty {
        TyView::Field => {
            let neg = (-y) % p;
            lemma_eval1(OpView::PfUnOp(PfUnOp::Neg), b.term, fe(y, p), env);
            lemma_field_pair(x, neg, p);
            lemma_eval2(
                OpView::PfNaryOp(PfNaryOp::Add),
                a.term,
                node1(OpView::PfUnOp(PfUnOp::Neg), b.term),
                fe(x, p),
                fe(neg, p),
                env,
            );
            lemma_add_mod_noop(x, neg, p);
            lemma_add_mod_noop(x, -y, p);
            vstd::arithmetic::div_mod::lemma_mod_twice(-y, p);
        },
        TyView::Uint(w) => {
            lemma_eval2(
                OpView::BvBinOp(BvBinOp::Sub),
                a.term,
                b.term,
                bv(x, w),
                bv(y, w),
                env,
            );
        },
        _ => {},
    }
}

/// The product of two numbers of one type is their product modulo the size of
/// the type.
pub proof fn law_mul_means(
    a: PyTermView,
    b: PyTermView,
    x: int,
    y: int,
    env: Map<Seq<char>, ValueView>,
    p: int,
)
    requires
        a.ty == b.ty,
        number(a, x, env, p),
        number(b, y, env, p),
    ensures
        gives_number(mul_value(a, b), a.ty, (x * y) % size(a.ty, p), env, p),
{
    lemma_mod_bound(x * y, size(a.ty, p));
    match a.ty {
        TyView::Field => {
            lemma_field_pair(x, y, p);
            lemma_eval2(
                OpView::PfNaryOp(PfNaryOp::Mul),
                a.term,
                b.term,
                fe(x, p),
                fe(y, p),
                env,
            );
        },
        TyView::Uint(w) => {
            lemma_bits_pair(BvNaryOp::Mul, x, y, w);
            lemma_eval2(
                OpView::BvNaryOp(BvNaryOp::Mul),
                a.term,
                b.term,
                bv(x, w),
                bv(y, w),
                env,
            );
        },
        _ => {},
    }
}

/// The quotient of two unsigned integers is their quotient rounded down, where
/// the divisor is not zero.
pub proof fn law_div_uint_means(
    a: PyTermView,
    b: PyTermView,
    x: int,
    y: int,
    env: Map<Seq<char>, ValueView>,
    p: int,
)
    requires
        a.ty is Uint,
        a.ty == b.ty,
        number(a, x, env, p),
        number(b, y, env, p),
        y != 0,
    ensures
        gives_number(div_value(a, b), a.ty, x / y, env, p),
{
    match a.ty {
        TyView::Uint(w) => {
            lemma_eval2(
                OpView::BvBinOp(BvBinOp::Udiv),
                a.term,
                b.term,
                bv(x, w),
                bv(y, w),
                env,
            );
            lemma_div_pos_is_pos(x, y);
            assert(x / y <= x) by {
                vstd::arithmetic::div_mod::lemma_div_is_ordered_by_denominator(x, 1, y);
            }
        },
        _ => {},
    }
}

/// The quotient of two field elements times the divisor is the dividend, where
/// the divisor has a reciprocal.
pub proof fn law_div_field_means(
    a: PyTermView,
    b: PyTermView,
    x: int,
    y: int,
    r: int,
    env: Map<Seq<char>, ValueView>,
    p: int,
) -> (q: int)
    requires
        a.ty == TyView::Field,
        b.ty == TyView::Field,
        number(a, x, env, p),
        number(b, y, env, p),
        is_recip(y, r, p),
    ensures
        gives_number(div_value(a, b), TyView::Field, q, env, p),
        (q * y) % p == x,
{
    let s = choose|s: int| is_recip(y, s, p);
    lemma_eval1(OpView::PfUnOp(PfUnOp::Recip), b.term, fe(y, p), env);
    lemma_field_pair(x, s, p);
    lemma_eval2(
        OpView::PfNaryOp(PfNaryOp::Mul),
        a.term,
        node1(OpView::PfUnOp(PfUnOp::Recip), b.term),
        fe(x, p),
        fe(s, p),
        env,
    );
    let q = (x * s) % p;
    lemma_mod_bound(x * s, p);
    assert((q * y) % p == x) by {
        vstd::arithmetic::div_mod::lemma_mul_mod_noop_left(x * s, y, p);
        assert((x * s) * y == x * (y * s)) by (nonlinear_arith);
        vstd::arithmetic::div_mod::lemma_mul_mod_noop_right(x, y * s, p);
        vstd::arithmetic::div_mod::lemma_mul_mod_noop_right(x, 1, p);
        assert((x * 1) % p == x % p);
        lemma_small_mod(x as nat, p as nat);
    }
    q
}

/// Whether a number is prime.
pub open spec fn prime(p: int) -> bool {
    p >= 2 && forall|d: int| 2 <= d < p ==> #[trigger] (p % d) != 0
}

/// Every element but zero of a prime field has a reciprocal.
pub proof fn lemma_recip_exists(y: int, p: int) -> (r: int)
    requires
        prime(p),
        0 < y < p,
    ensures
        is_recip(y, r, p),
    decreases y,
{
    if y == 1 {
        1
    } else {
        let q = p / y;
        let rest = p % y;
        lemma_mod_bound(p, y);
        let s = lemma_recip_exists(rest, p);
        let r = (-(q * s)) % p;
        lemma_mod_bound(-(q * s), p);
        lemma_fundamental_div_mod(p, y);
        assert(y * (-(q * s)) == rest * s + (-s) * p) by (nonlinear_arith)
            requires
                p == y * q + rest,
        ;
        lemma_mul_mod_noop_right(y, -(q * s), p);
        lemma_mod_multiples_vanish(-s, rest * s, p);
        assert((-s) * p == p * (-s)) by (nonlinear_arith);
        r
    }
}

/// In a prime field the quotient of two elements times the divisor is the
/// dividend, where the divisor is not zero.
pub proof fn law_div_prime_means(
    a: PyTermView,
    b: PyTermView,
    x: int,
    y: int,
    env: Map<Seq<char>, ValueView>,
    p: int,
) -> (q: int)
    requires
        prime(p),
        a.ty == TyView::Field,
        b.ty == TyView::Field,
        number(a, x, env, p),
        number(b, y, env, p),
        y != 0,
    ensures
        gives_number(div_value(a, b), TyView::Field, q, env, p),
        (q * y) % p == x,
{
    let r = lemma_recip_exists(y, p);
    law_div_field_means(a, b, x, y, r, env, p)
}

/// The remainder of two numbers of one type is their remainder, where the
/// divisor is not zero.
pub proof fn law_rem_means(
    a: PyTermView,
    b: PyTermView,
    x: int,
    y: int,
    env: Map<Seq<char>, ValueView>,
    p: int,
)
    requires
        a.ty == b.ty,
        number(a, x, env, p),
        number(b, y, env, p),
        y != 0,
    ensures
        gives_number(rem_value(a, b, p), a.ty, x % y, env, p),
{
    lemma_mod_bound(x, y);
    match a.ty {
        TyView::Uint(w) => {
            lemma_eval2(
                OpView::BvBinOp(BvBinOp::Urem),
                a.term,
                b.term,
                bv(x, w),
                bv(y, w),
                env,
            );
        },
        TyView::Field => {
            let len = bit_length(p as nat);
            let at = node1(OpView::PfToBv(len), a.term);
            let bt = node1(OpView::PfToBv(len), b.term);
            lemma_bit_length_bounds(p as nat);
            lemma_eval1(OpView::PfToBv(len), a.term, fe(x, p), env);
            lemma_eval1(OpView::PfToBv(len), b.term, fe(y, p), env);
            lemma_eval2(
                OpView::BvBinOp(BvBinOp::Urem),
                at,
                bt,
                bv(x, len),
                bv(y, len),
                env,
            );
            lemma_eval1(
                OpView::UbvToPf(p),
                node2(OpView::BvBinOp(BvBinOp::Urem), at, bt),
                bv(x % y, len),
                env,
            );
            lemma_small_mod((x % y) as nat, p as nat);
        },
        _ => {},
    }
}

/// The negative of a number is its negative modulo the size of its type.
pub proof fn law_neg_means(a: PyTermView, x: int, env: Map<Seq<char>, ValueView>, p: int)
    requires
        number(a, x, env, p),
    ensures
        gives_number(neg_value(a), a.ty, (-x) % size(a.ty, p), env, p),
{
    lemma_mod_bound(-x, size(a.ty, p));
    match a.ty {
        TyView::Field => {
            lemma_eval1(OpView::PfUnOp(PfUnOp::Neg), a.term, fe(x, p), env);
        },
        TyView::Uint(w) => {
            lemma_eval1(OpView::BvUnOp(BvUnOp::Neg), a.term, bv(x, w), env);
        },
        _ => {},
    }
}

proof fn lemma_bitwise_bound(op: BvNaryOp, x: int, y: int, w: nat)
    ensures
        0 <= bitwise(op, x, y, w) < pow2(w),
    decreases w,
{
    vstd::arithmetic::power2::lemma2_to64();
    if w > 0 {
        lemma_bitwise_bound(op, x / 2, y / 2, (w - 1) as nat);
        vstd::arithmetic::power2::lemma_pow2_unfold(w);
    }
}

/// Bitwise operations on unsigned integers combine each bit.
pub proof fn law_bitwise_means(
    a: PyTermView,
    b: PyTermView,
    w: nat,
    x: int,
    y: int,
    env: Map<Seq<char>, ValueView>,
    p: int,
)
    requires
        a.ty == TyView::Uint(w),
        b.ty == TyView::Uint(w),
        number(a, x, env, p),
        number(b, y, env, p),
    ensures
        gives_number(bitand_value(a, b), a.ty, bitwise(BvNaryOp::And, x, y, w), env, p),
        gives_number(bitor_value(a, b), a.ty, bitwise(BvNaryOp::Or, x, y, w), env, p),
        gives_number(bitxor_value(a, b), a.ty, bitwise(BvNaryOp::Xor, x, y, w), env, p),
{
    lemma_bits_op_means(BvNaryOp::And, a, b, w, x, y, env, p);
    lemma_bits_op_means(BvNaryOp::Or, a, b, w, x, y, env, p);
    lemma_bits_op_means(BvNaryOp::Xor, a, b, w, x, y, env, p);
}

proof fn lemma_bits_op_means(
    op: BvNaryOp,
    a: PyTermView,
    b: PyTermView,
    w: nat,
    x: int,
    y: int,
    env: Map<Seq<char>, ValueView>,
    p: int,
)
    requires
        op == BvNaryOp::And || op == BvNaryOp::Or || op == BvNaryOp::Xor,
        a.ty == TyView::Uint(w),
        b.ty == TyView::Uint(w),
        number(a, x, env, p),
        number(b, y, env, p),
    ensures
        eval(node2(OpView::BvNaryOp(op), a.term, b.term), env) == Some(bv(bitwise(op, x, y, w), w)),
        0 <= bitwise(op, x, y, w) < pow2(w),
{
    lemma_bitwise_bound(op, x, y, w);
    lemma_bits_pair(op, x, y, w);
    lemma_eval2(OpView::BvNaryOp(op), a.term, b.term, bv(x, w), bv(y, w), env);
}

/// All bits of an unsigned integer flipped.
pub proof fn law_not_uint_means(
    a: PyTermView,
    w: nat,
    x: int,
    env: Map<Seq<char>, ValueView>,
    p: int,
)
    requires
        a.ty == TyView::Uint(w),
        number(a, x, env, p),
    ensures
        gives_number(not_value(a), a.ty, pow2(w) - 1 - x, env, p),
{
    lemma_eval1(OpView::BvUnOp(BvUnOp::Not), a.term, bv(x, w), env);
}

/// Logical operations on Booleans.
pub proof fn law_logic_means(
    a: PyTermView,
    b: PyTermView,
    x: bool,
    y: bool,
    env: Map<Seq<char>, ValueView>,
)
    requires
        truth(a, x, env),
        truth(b, y, env),
    ensures
        gives_truth(and_value(a, b), x && y, env),
        gives_truth(or_value(a, b), x || y, env),
        gives_truth(not_value(a), !x, env),
{
    let u = ValueView::Bool(x);
    let v = ValueView::Bool(y);
    lemma_eval2(OpView::BoolNaryOp(BoolNaryOp::And), a.term, b.term, u, v, env);
    lemma_eval2(OpView::BoolNaryOp(BoolNaryOp::Or), a.term, b.term, u, v, env);
    lemma_eval1(OpView::Not, a.term, u, env);
    let vs = seq![u, v];
    assert(vs[0]->Bool_0 == x && vs[1]->Bool_0 == y);
}

/// Two values of one type are equal where they have one value, and differ
/// where they do not.
pub proof fn law_eq_means(
    a: PyTermView,
    b: PyTermView,
    u: ValueView,
    v: ValueView,
    env: Map<Seq<char>, ValueView>,
)
    requires
        a.ty == b.ty,
        eval(a.term, env) == Some(u),
        eval(b.term, env) == Some(v),
    ensures
        gives_truth(eq_value(a, b), u == v, env),
        gives_truth(neq_value(a, b), u != v, env),
{
    lemma_eval2(OpView::Eq, a.term, b.term, u, v, env);
    lemma_eval1(
        OpView::Not,
        node2(OpView::Eq, a.term, b.term),
        ValueView::Bool(u == v),
        env,
    );
}

proof fn lemma_pred_means(
    pred: BvBinPred,
    a: PyTermView,
    b: PyTermView,
    x: int,
    y: int,
    env: Map<Seq<char>, ValueView>,
    p: int,
)
    requires
        a.ty == b.ty,
        number(a, x, env, p),
        number(b, y, env, p),
    ensures
        a.ty is Uint ==> eval(node2(OpView::BvBinPred(pred), a.term, b.term), env) == Some(
            ValueView::Bool(holds(pred, x, y)),
        ),
        a.ty == TyView::Field ==> eval(field_pred(pred, a.term, b.term, p), env) == Some(
            ValueView::Bool(holds(pred, x, y)),
        ),
{
    match a.ty {
        TyView::Uint(w) => {
            lemma_eval2(OpView::BvBinPred(pred), a.term, b.term, bv(x, w), bv(y, w), env);
        },
        TyView::Field => {
            let len = bit_length(p as nat);
            lemma_bit_length_bounds(p as nat);
            lemma_eval1(OpView::PfToBv(len), a.term, fe(x, p), env);
            lemma_eval1(OpView::PfToBv(len), b.term, fe(y, p), env);
            lemma_eval2(
                OpView::BvBinPred(pred),
                node1(OpView::PfToBv(len), a.term),
                node1(OpView::PfToBv(len), b.term),
                bv(x, len),
                bv(y, len),
                env,
            );
        },
        _ => {},
    }
}

/// Comparisons of two numbers of one type compare the numbers.
pub proof fn law_comparison_means(
    a: PyTermView,
    b: PyTermView,
    x: int,
    y: int,
    env: Map<Seq<char>, ValueView>,
    p: int,
)
    requires
        a.ty == b.ty,
        number(a, x, env, p),
        number(b, y, env, p),
    ensures
        gives_truth(ult_value(a, b, p), x < y, env),
        gives_truth(ule_value(a, b, p), x <= y, env),
        gives_truth(ugt_value(a, b, p), x > y, env),
        gives_truth(uge_value(a, b, p), x >= y, env),
{
    lemma_pred_means(BvBinPred::Ult, a, b, x, y, env, p);
    lemma_pred_means(BvBinPred::Ule, a, b, x, y, env, p);
    lemma_pred_means(BvBinPred::Ugt, a, b, x, y, env, p);
    lemma_pred_means(BvBinPred::Uge, a, b, x, y, env, p);
}

/// A choice between two values of one type is the first where the condition
/// is true, and the second where it is false.
pub proof fn law_cond_means(
    c: PyTermView,
    a: PyTermView,
    b: PyTermView,
    x: bool,
    u: ValueView,
    v: ValueView,
    env: Map<Seq<char>, ValueView>,
)
    requires
        truth(c, x, env),
        a.ty == b.ty,
        eval(a.term, env) == Some(u),
        eval(b.term, env) == Some(v),
    ensures
        cond_value(c, a, b) is Ok,
        cond_value(c, a, b)->Ok_0.ty == a.ty,
        eval(cond_value(c, a, b)->Ok_0.term, env) == Some(
            if x {
                u
            } else {
                v
            },
        ),
{
    lemma_eval3(OpView::Ite, c.term, a.term, b.term, ValueView::Bool(x), u, v, env);
}

/// An unsigned integer as a field element is the number modulo the modulus.
pub proof fn law_to_field_means(u: PyTermView, x: int, env: Map<Seq<char>, ValueView>, p: int)
    requires
        p > 0,
        u.ty is Uint,
        number(u, x, env, p),
    ensures
        gives_number(to_field(u, p), TyView::Field, x % p, env, p),
{
    match u.ty {
        TyView::Uint(w) => {
            lemma_eval1(OpView::UbvToPf(p), u.term, bv(x, w), env);
            lemma_mod_bound(x, p);
        },
        _ => {},
    }
}

/// A term is taken for a constant where its operator is one, and the constant
/// is the value of the term.
pub proof fn law_constant_means(t: TermView, env: Map<Seq<char>, ValueView>)
    requires
        eval(t, env) is Some,
    ensures
        t.op is Const ==> constant(t) == eval(t, env),
        !(t.op is Const) ==> constant(t) is None,
{
}

/// The integer read from a constant is the number that it means, a field
/// element or a bit-vector; nothing else is an integer.
pub proof fn law_const_int_means(t: TermView, env: Map<Seq<char>, ValueView>)
    requires
        eval(t, env) is Some,
    ensures
        t.op is Const ==> match eval(t, env)->0 {
            ValueView::Field(f) => const_integer(t) == Some(f.value),
            ValueView::BitVector(b) => const_integer(t) == Some(b.uint),
            _ => const_integer(t) is None,
        },
        !(t.op is Const) ==> const_integer(t) is None,
{
}

/// The integer that a literal was made of is read back from it, modulo the
/// modulus where it is a field element.
pub proof fn law_const_int_of_literal(i: int, v: int, w: nat, p: int)
    ensures
        const_integer(pf_lit(i, p)) == Some(i % p),
        const_integer(bv_const(v, w)) == Some(v),
{
}

/// The number that a value means is read from the constant that its term folds
/// to, where folding keeps the value of the term.
pub proof fn law_const_int_of_number(
    b: PyTermView,
    n: int,
    folded: TermView,
    env: Map<Seq<char>, ValueView>,
    p: int,
)
    requires
        number(b, n, env, p),
        folded.op is Const,
        eval(folded, env) == eval(b.term, env),
    ensures
        const_integer(folded) == Some(n),
{
    law_const_int_means(folded, env);
}

/// A shift by a constant multiplies or divides by a power of two.
pub proof fn law_shift_means(
    name: Seq<char>,
    a: PyTermView,
    b: PyTermView,
    folded: TermView,
    w: nat,
    x: int,
    n: nat,
    env: Map<Seq<char>, ValueView>,
    p: int,
)
    requires
        a.ty == TyView::Uint(w),
        number(a, x, env, p),
        const_integer(folded) == Some(n as int),
    ensures
        gives_number(
            shift(name, BvBinOp::Shl, a, b, folded),
            a.ty,
            (x * pow2(n)) % (pow2(w) as int),
            env,
            p,
        ),
        gives_number(
            shift(name, BvBinOp::Lshr, a, b, folded),
            a.ty,
            x / (pow2(n) as int),
            env,
            p,
        ),
{
    let c = bv_const(n as int, w);
    lemma_eval_const(bv(n as int, w), env);
    lemma_eval2(OpView::BvBinOp(BvBinOp::Shl), a.term, c, bv(x, w), bv(n as int, w), env);
    lemma_eval2(OpView::BvBinOp(BvBinOp::Lshr), a.term, c, bv(x, w), bv(n as int, w), env);
    lemma_pow2_pos(w);
    lemma_pow2_pos(n);
    lemma_mod_bound(x * pow2(n), pow2(w) as int);
    lemma_div_pos_is_pos(x, pow2(n) as int);
    assert(x / (pow2(n) as int) <= x) by {
        vstd::arithmetic::div_mod::lemma_div_is_ordered_by_denominator(x, 1, pow2(n) as int);
    }
}

/// A shift by a distance that folds to a constant multiplies or divides by
/// that power of two.
pub proof fn law_shift_by_value(
    name: Seq<char>,
    a: PyTermView,
    b: PyTermView,
    folded: TermView,
    w: nat,
    x: int,
    n: nat,
    env: Map<Seq<char>, ValueView>,
    p: int,
)
    requires
        a.ty == TyView::Uint(w),
        number(a, x, env, p),
        number(b, n as int, env, p),
        folded.op is Const,
        eval(folded, env) == eval(b.term, env),
    ensures
        gives_number(
            shift(name, BvBinOp::Shl, a, b, folded),
            a.ty,
            (x * pow2(n)) % (pow2(w) as int),
            env,
            p,
        ),
        gives_number(
            shift(name, BvBinOp::Lshr, a, b, folded),
            a.ty,
            x / (pow2(n) as int),
            env,
            p,
        ),
{
    law_const_int_of_number(b, n as int, folded, env, p);
    law_shift_means(name, a, b, folded, w, x, n, env, p);
}

proof fn lemma_power_means(a: TermView, n: nat, x: int, env: Map<Seq<char>, ValueView>, p: int)
    requires
        n > 0,
        0 <= x < p,
        eval(a, env) == Some(fe(x, p)),
    ensures
        eval(power(a, n), env) == Some(fe(pow(x, n) % p, p)),
    decreases n,
{
    let times = OpView::PfNaryOp(PfNaryOp::Mul);
    if n == 1 {
        lemma_pow1(x);
        lemma_small_mod(x as nat, p as nat);
    } else {
        let m = n / 2;
        let half = power(a, m);
        let y = pow(x, m) % p;
        lemma_power_means(a, m, x, env, p);
        let square = node2(times, half, half);
        lemma_field_pair(y, y, p);
        lemma_eval2(times, half, half, fe(y, p), fe(y, p), env);
        lemma_mul_mod_noop(pow(x, m), pow(x, m), p);
        lemma_pow_adds(x, m, m);
        let z = pow(x, m + m) % p;
        assert(eval(square, env) == Some(fe(z, p)));
        if n % 2 == 1 {
            lemma_field_pair(z, x, p);
            lemma_eval2(times, square, a, fe(z, p), fe(x, p), env);
            vstd::arithmetic::div_mod::lemma_mul_mod_noop_left(pow(x, m + m), x, p);
            lemma_pow_adds(x, m + m, 1);
            lemma_pow1(x);
            assert(m + m + 1 == n);
        } else {
            assert(m + m == n);
        }
    }
}

/// A field element raised to a constant is its power modulo the modulus.
pub proof fn law_pow_means(
    a: PyTermView,
    b: PyTermView,
    folded: TermView,
    x: int,
    n: nat,
    env: Map<Seq<char>, ValueView>,
    p: int,
)
    requires
        a.ty == TyView::Field,
        b.ty == TyView::Uint(32),
        number(a, x, env, p),
        const_integer(folded) == Some(n as int),
    ensures
        gives_number(pow_value(a, b, folded, p), TyView::Field, pow(x, n) % p, env, p),
{
    lemma_mod_bound(pow(x, n), p);
    if n == 0 {
        vstd::arithmetic::power::lemma_pow0(x);
        lemma_eval_const(fe(1int % p, p), env);
    } else {
        lemma_power_means(a.term, n, x, env, p);
    }
}

/// A field element raised to an exponent that folds to a constant is that power
/// of it, modulo the modulus.
pub proof fn law_pow_by_value(
    a: PyTermView,
    b: PyTermView,
    folded: TermView,
    x: int,
    n: nat,
    env: Map<Seq<char>, ValueView>,
    p: int,
)
    requires
        a.ty == TyView::Field,
        b.ty == TyView::Uint(32),
        number(a, x, env, p),
        number(b, n as int, env, p),
        folded.op is Const,
        eval(folded, env) == eval(b.term, env),
    ensures
        gives_number(pow_value(a, b, folded, p), TyView::Field, pow(x, n) % p, env, p),
{
    law_const_int_of_number(b, n as int, folded, env, p);
    law_pow_means(a, b, folded, x, n, env, p);
}

/// Literals mean the numbers and Booleans that they stand for.
pub proof fn law_literals_mean(
    i: int,
    v: int,
    w: nat,
    b: bool,
    env: Map<Seq<char>, ValueView>,
    p: int,
)
    requires
        p > 0,
        0 <= v < pow2(w),
    ensures
        number(py(TyView::Field, pf_lit(i, p)), i % p, env, p),
        number(py(TyView::Uint(w), bv_const(v, w)), v, env, p),
        truth(py(TyView::Bool, leaf(OpView::Const(ValueView::Bool(b)))), b, env),
{
    lemma_mod_bound(i, p);
    lemma_eval_const(fe(i % p, p), env);
    lemma_eval_const(bv(v, w), env);
    lemma_eval_const(ValueView::Bool(b), env);
}

/// A power is built by squaring: twice the exponent is the square, one more is
/// one more factor, and the first power is the term itself.
pub proof fn law_power_squares(a: TermView, n: nat)
    requires
        n >= 1,
    ensures
        power(a, 1) == a,
        power(a, 2 * n).op == OpView::PfNaryOp(PfNaryOp::Mul),
        power(a, 2 * n).cs =~= seq![power(a, n), power(a, n)],
        power(a, 2 * n + 1).op == OpView::PfNaryOp(PfNaryOp::Mul),
        power(a, 2 * n + 1).cs =~= seq![power(a, 2 * n), a],
{
    reveal_with_fuel(power, 2);
    assert((2 * n) / 2 == n);
    assert((2 * n + 1) / 2 == n);
}

/// A value replaced by the constant that its term folds to keeps its value,
/// where folding keeps the value of the term.
pub proof fn law_const_val_means(a: PyTermView, folded: TermView, env: Map<Seq<char>, ValueView>)
    requires
        eval(folded, env) == eval(a.term, env),
        eval(folded, env) is Some,
        const_val_value(a, folded) is Ok,
    ensures
        eval(const_val_value(a, folded)->Ok_0.term, env) == eval(a.term, env),
{
    match folded.op {
        OpView::Const(v) => {
            lemma_eval_const(v, env);
        },
        _ => {},
    }
}

} // verus!
