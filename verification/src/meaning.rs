//! What terms mean: the values that they take as their variables take values.
use crate::field::{Bits, FieldElem};
use crate::ir::{
    leaf, node, node1, node2, node3, node4, BoolNaryOp, BvBinOp, BvBinPred, BvNaryOp, BvUnOp,
    OpView, PfNaryOp, PfUnOp, SortView, TermView, ValueView,
};
use crate::typing::value_sort;
use vstd::arithmetic::power2::pow2;
use vstd::prelude::*;

verus! {

/// The element `x` of the field of modulus `p`.
pub open spec fn fe(x: int, p: int) -> ValueView {
    ValueView::Field(FieldElem { value: x, modulus: p })
}

/// The bit-vector of width `w` that holds `x`.
pub open spec fn bv(x: int, w: nat) -> ValueView {
    ValueView::BitVector(Bits { uint: x, width: w })
}

/// The values, where all are there.
pub open spec fn all_there(vs: Seq<Option<ValueView>>) -> Option<Seq<ValueView>> {
    if forall|i: int| 0 <= i < vs.len() ==> #[trigger] vs[i] is Some {
        Some(Seq::new(vs.len(), |i: int| vs[i]->0))
    } else {
        None
    }
}

/// The sum of the numbers in field elements.
pub open spec fn field_sum(vs: Seq<ValueView>) -> int
    decreases vs.len(),
{
    if vs.len() == 0 {
        0
    } else {
        field_sum(vs.drop_last()) + vs.last()->Field_0.value
    }
}

/// The product of the numbers in field elements.
pub open spec fn field_product(vs: Seq<ValueView>) -> int
    decreases vs.len(),
{
    if vs.len() == 0 {
        1
    } else {
        field_product(vs.drop_last()) * vs.last()->Field_0.value
    }
}

/// One bit of two bits.
pub open spec fn bit_of(op: BvNaryOp, x: int, y: int) -> int {
    match op {
        BvNaryOp::And => if x == 1 && y == 1 { 1 } else { 0 },
        BvNaryOp::Or => if x == 1 || y == 1 { 1 } else { 0 },
        _ => if x != y { 1 } else { 0 },
    }
}

/// The number whose low `w` bits are combined from those of two numbers.
pub open spec fn bitwise(op: BvNaryOp, x: int, y: int, w: nat) -> int
    decreases w,
{
    if w == 0 {
        0
    } else {
        2 * bitwise(op, x / 2, y / 2, (w - 1) as nat) + bit_of(op, x % 2, y % 2)
    }
}

/// Two numbers of `w` bits combined.
pub open spec fn combined(op: BvNaryOp, x: int, y: int, w: nat) -> int {
    match op {
        BvNaryOp::Add => (x + y) % (pow2(w) as int),
        BvNaryOp::Mul => (x * y) % (pow2(w) as int),
        _ => bitwise(op, x, y, w),
    }
}

/// Bit-vectors of one width combined.
pub open spec fn all_combined(op: BvNaryOp, vs: Seq<ValueView>, w: nat) -> int
    decreases vs.len(),
{
    if vs.len() <= 1 {
        vs[0]->BitVector_0.uint
    } else {
        combined(op, all_combined(op, vs.drop_last(), w), vs.last()->BitVector_0.uint, w)
    }
}

/// Bit-vectors one after another, the most significant first.
pub open spec fn joined(vs: Seq<ValueView>) -> Bits
    decreases vs.len(),
{
    if vs.len() == 0 {
        Bits { uint: 0, width: 0 }
    } else {
        let high = joined(vs.drop_last());
        let low = vs.last()->BitVector_0;
        Bits { uint: high.uint * pow2(low.width) + low.uint, width: high.width + low.width }
    }
}

/// An operator on two bit-vectors of the width `w`.
pub open spec fn bv_bin(op: BvBinOp, x: int, y: int, w: nat) -> int {
    let size = pow2(w) as int;
    match op {
        BvBinOp::Sub => (x - y) % size,
        BvBinOp::Udiv => x / y,
        BvBinOp::Urem => x % y,
        BvBinOp::Shl => (x * pow2(y as nat)) % size,
        BvBinOp::Lshr => x / (pow2(y as nat) as int),
    }
}

/// Whether an operator divides by its second argument, which is not zero then.
pub open spec fn divides(op: BvBinOp) -> bool {
    op == BvBinOp::Udiv || op == BvBinOp::Urem
}

/// A comparison of two numbers.
pub open spec fn holds(pred: BvBinPred, x: int, y: int) -> bool {
    match pred {
        BvBinPred::Ult => x < y,
        BvBinPred::Ule => x <= y,
        BvBinPred::Ugt => x > y,
        BvBinPred::Uge => x >= y,
    }
}

/// Whether `r` is the reciprocal of `x` in the field of modulus `p`.
pub open spec fn is_recip(x: int, r: int, p: int) -> bool {
    0 <= r < p && (x * r) % p == 1int % p
}

/// Whether all values are field elements of one modulus.
pub open spec fn all_fields(vs: Seq<ValueView>, p: int) -> bool {
    forall|i: int|
        0 <= i < vs.len() ==> (#[trigger] vs[i]) is Field && vs[i]->Field_0.modulus == p
}

/// Whether all values are bit-vectors of one width.
pub open spec fn all_bits(vs: Seq<ValueView>, w: nat) -> bool {
    forall|i: int|
        0 <= i < vs.len() ==> (#[trigger] vs[i]) is BitVector && vs[i]->BitVector_0.width == w
}

/// Whether a value is a place in an array with the given keys and size.
pub open spec fn in_array(key: ValueView, k: SortView, n: nat) -> bool {
    key is Field && k == SortView::Field(key->Field_0.modulus) && 0 <= key->Field_0.value < n
}

/// The value of an operator on values, where it has one. Variables take the
/// values that `env` gives them.
pub open spec fn op_value(
    op: OpView,
    vs: Seq<ValueView>,
    env: Map<Seq<char>, ValueView>,
) -> Option<ValueView> {
    match op {
        OpView::Const(v) => Some(v),
        OpView::Var(n, _) => if env.dom().contains(n) {
            Some(env[n])
        } else {
            None
        },
        OpView::Ite => if vs.len() == 3 && vs[0] is Bool {
            Some(
                if vs[0]->Bool_0 {
                    vs[1]
                } else {
                    vs[2]
                },
            )
        } else {
            None
        },
        OpView::Eq => if vs.len() == 2 {
            Some(ValueView::Bool(vs[0] == vs[1]))
        } else {
            None
        },
        OpView::Not => if vs.len() == 1 && vs[0] is Bool {
            Some(ValueView::Bool(!vs[0]->Bool_0))
        } else {
            None
        },
        OpView::BoolNaryOp(o) => if forall|i: int|
            0 <= i < vs.len() ==> (#[trigger] vs[i]) is Bool {
            Some(
                ValueView::Bool(
                    match o {
                        BoolNaryOp::And => forall|i: int|
                            0 <= i < vs.len() ==> (#[trigger] vs[i])->Bool_0,
                        BoolNaryOp::Or => exists|i: int|
                            0 <= i < vs.len() && (#[trigger] vs[i])->Bool_0,
                    },
                ),
            )
        } else {
            None
        },
        OpView::BvNaryOp(o) => if vs.len() > 0 && vs[0] is BitVector && all_bits(
            vs,
            vs[0]->BitVector_0.width,
        ) {
            let w = vs[0]->BitVector_0.width;
            Some(bv(all_combined(o, vs, w), w))
        } else {
            None
        },
        OpView::BvBinOp(o) => if vs.len() == 2 && vs[0] is BitVector && all_bits(
            vs,
            vs[0]->BitVector_0.width,
        ) && (divides(o) ==> vs[1]->BitVector_0.uint != 0) {
            let w = vs[0]->BitVector_0.width;
            Some(bv(bv_bin(o, vs[0]->BitVector_0.uint, vs[1]->BitVector_0.uint, w), w))
        } else {
            None
        },
        OpView::BvUnOp(o) => if vs.len() == 1 && vs[0] is BitVector {
            let b = vs[0]->BitVector_0;
            let size = pow2(b.width) as int;
            Some(
                match o {
                    BvUnOp::Neg => bv((-b.uint) % size, b.width),
                    BvUnOp::Not => bv(size - 1 - b.uint, b.width),
                },
            )
        } else {
            None
        },
        OpView::BvBinPred(o) => if vs.len() == 2 && vs[0] is BitVector && all_bits(
            vs,
            vs[0]->BitVector_0.width,
        ) {
            Some(ValueView::Bool(holds(o, vs[0]->BitVector_0.uint, vs[1]->BitVector_0.uint)))
        } else {
            None
        },
        OpView::BvBit(i) => if vs.len() == 1 && vs[0] is BitVector && i
            < vs[0]->BitVector_0.width {
            Some(ValueView::Bool((vs[0]->BitVector_0.uint / (pow2(i) as int)) % 2 == 1))
        } else {
            None
        },
        OpView::BvConcat => if forall|i: int|
            0 <= i < vs.len() ==> (#[trigger] vs[i]) is BitVector {
            Some(ValueView::BitVector(joined(vs)))
        } else {
            None
        },
        OpView::BoolToBv => if vs.len() == 1 && vs[0] is Bool {
            Some(
                bv(
                    if vs[0]->Bool_0 {
                        1
                    } else {
                        0
                    },
                    1,
                ),
            )
        } else {
            None
        },
        OpView::PfNaryOp(o) => if vs.len() > 0 && vs[0] is Field && all_fields(
            vs,
            vs[0]->Field_0.modulus,
        ) {
            let p = vs[0]->Field_0.modulus;
            Some(
                match o {
                    PfNaryOp::Add => fe(field_sum(vs) % p, p),
                    PfNaryOp::Mul => fe(field_product(vs) % p, p),
                },
            )
        } else {
            None
        },
        OpView::PfUnOp(o) => if vs.len() == 1 && vs[0] is Field {
            let x = vs[0]->Field_0.value;
            let p = vs[0]->Field_0.modulus;
            match o {
                PfUnOp::Neg => Some(fe((-x) % p, p)),
                PfUnOp::Recip => if exists|r: int| is_recip(x, r, p) {
                    Some(fe(choose|r: int| is_recip(x, r, p), p))
                } else {
                    None
                },
            }
        } else {
            None
        },
        OpView::PfToBv(w) => if vs.len() == 1 && vs[0] is Field && vs[0]->Field_0.value < pow2(
            w,
        ) {
            Some(bv(vs[0]->Field_0.value, w))
        } else {
            None
        },
        OpView::UbvToPf(p) => if vs.len() == 1 && vs[0] is BitVector {
            Some(fe(vs[0]->BitVector_0.uint % p, p))
        } else {
            None
        },
        OpView::Select => if vs.len() == 2 && vs[0] is Array && in_array(
            vs[1],
            vs[0]->Array_0,
            vs[0]->Array_2.len(),
        ) {
            Some(vs[0]->Array_2[vs[1]->Field_0.value])
        } else {
            None
        },
        OpView::Store => if vs.len() == 3 && vs[0] is Array && in_array(
            vs[1],
            vs[0]->Array_0,
            vs[0]->Array_2.len(),
        ) {
            Some(
                ValueView::Array(
                    vs[0]->Array_0,
                    vs[0]->Array_1,
                    vs[0]->Array_2.update(vs[1]->Field_0.value, vs[2]),
                ),
            )
        } else {
            None
        },
        OpView::CStore => if vs.len() == 4 && vs[0] is Array && in_array(
            vs[1],
            vs[0]->Array_0,
            vs[0]->Array_2.len(),
        ) && vs[3] is Bool {
            Some(
                if vs[3]->Bool_0 {
                    ValueView::Array(
                        vs[0]->Array_0,
                        vs[0]->Array_1,
                        vs[0]->Array_2.update(vs[1]->Field_0.value, vs[2]),
                    )
                } else {
                    vs[0]
                },
            )
        } else {
            None
        },
        OpView::Fill(k, n) => if vs.len() == 1 && value_sort(vs[0]) is Some {
            Some(ValueView::Array(k, value_sort(vs[0])->0, Seq::new(n, |i: int| vs[0])))
        } else {
            None
        },
        OpView::Array(k, s) => Some(ValueView::Array(k, s, vs)),
        OpView::Tuple => Some(ValueView::Tuple(vs)),
        OpView::Field(i) => if vs.len() == 1 && vs[0] is Tuple && i < vs[0]->Tuple_0.len() {
            Some(vs[0]->Tuple_0[i as int])
        } else {
            None
        },
        OpView::Update(i) => if vs.len() == 2 && vs[0] is Tuple && i < vs[0]->Tuple_0.len() {
            Some(ValueView::Tuple(vs[0]->Tuple_0.update(i as int, vs[1])))
        } else {
            None
        },
        OpView::Foreign(_, _) => None,
    }
}

/// The value of a term, where each operator in it has one.
pub open spec fn eval(t: TermView, env: Map<Seq<char>, ValueView>) -> Option<ValueView>
    decreases t,
{
    match all_there(evals(t.cs, env)) {
        Some(vs) => op_value(t.op, vs, env),
        None => None,
    }
}

/// The values of terms.
pub open spec fn evals(ts: Seq<TermView>, env: Map<Seq<char>, ValueView>) -> Seq<
    Option<ValueView>,
>
    decreases ts,
{
    Seq::new(
        ts.len(),
        |i: int|
            if 0 <= i < ts.len() {
                eval(ts[i], env)
            } else {
                None
            },
    )
}

/// The value of a term follows from the values of its arguments.
pub proof fn lemma_eval(
    op: OpView,
    ts: Seq<TermView>,
    vs: Seq<ValueView>,
    env: Map<Seq<char>, ValueView>,
)
    requires
        ts.len() == vs.len(),
        forall|i: int| 0 <= i < ts.len() ==> eval(#[trigger] ts[i], env) == Some(vs[i]),
    ensures
        eval(node(op, ts), env) == op_value(op, vs, env),
{
    let all = evals(ts, env);
    assert forall|i: int| 0 <= i < all.len() implies #[trigger] all[i] == Some(vs[i]) by {
        assert(eval(ts[i], env) == Some(vs[i]));
    }
    assert(all_there(all)->0 =~= vs);
}

/// The value of a constant.
pub proof fn lemma_eval_const(v: ValueView, env: Map<Seq<char>, ValueView>)
    ensures
        eval(leaf(OpView::Const(v)), env) == Some(v),
{
    lemma_eval(OpView::Const(v), Seq::empty(), Seq::empty(), env);
}

/// The value of a term with one argument.
pub proof fn lemma_eval1(op: OpView, a: TermView, x: ValueView, env: Map<Seq<char>, ValueView>)
    requires
        eval(a, env) == Some(x),
    ensures
        eval(node1(op, a), env) == op_value(op, seq![x], env),
{
    lemma_eval(op, seq![a], seq![x], env);
}

/// The value of a term with two arguments.
pub proof fn lemma_eval2(
    op: OpView,
    a: TermView,
    b: TermView,
    x: ValueView,
    y: ValueView,
    env: Map<Seq<char>, ValueView>,
)
    requires
        eval(a, env) == Some(x),
        eval(b, env) == Some(y),
    ensures
        eval(node2(op, a, b), env) == op_value(op, seq![x, y], env),
{
    lemma_eval(op, seq![a, b], seq![x, y], env);
}

/// The value of a term with three arguments.
pub proof fn lemma_eval3(
    op: OpView,
    a: TermView,
    b: TermView,
    c: TermView,
    x: ValueView,
    y: ValueView,
    z: ValueView,
    env: Map<Seq<char>, ValueView>,
)
    requires
        eval(a, env) == Some(x),
        eval(b, env) == Some(y),
        eval(c, env) == Some(z),
    ensures
        eval(node3(op, a, b, c), env) == op_value(op, seq![x, y, z], env),
{
    lemma_eval(op, seq![a, b, c], seq![x, y, z], env);
}

/// The value of a term with four arguments.
pub proof fn lemma_eval4(
    op: OpView,
    ts: (TermView, TermView, TermView, TermView),
    vs: (ValueView, ValueView, ValueView, ValueView),
    env: Map<Seq<char>, ValueView>,
)
    requires
        eval(ts.0, env) == Some(vs.0),
        eval(ts.1, env) == Some(vs.1),
        eval(ts.2, env) == Some(vs.2),
        eval(ts.3, env) == Some(vs.3),
    ensures
        eval(node4(op, ts.0, ts.1, ts.2, ts.3), env) == op_value(
            op,
            seq![vs.0, vs.1, vs.2, vs.3],
            env,
        ),
{
    lemma_eval(op, seq![ts.0, ts.1, ts.2, ts.3], seq![vs.0, vs.1, vs.2, vs.3], env);
}

} // verus!
