//! Numbers and their bits.
use crate::arrays::ir_array;
use crate::error::{Error, ErrorView};
use crate::field::{default_field, Cfg};
use crate::ir::{
    node, node1, node2, term, term1, term2, terms_view, BvBinPred, Op, OpView, Sort, SortView, Term,
    TermView,
};
use crate::pyterm::{elem, elems, outcome, py, select_all, PyTerm, PyTermView};
use crate::ty::{Ty, TyView};
use vstd::prelude::*;

verus! {

/// An unsigned integer as a field element.
pub open spec fn to_field(u: PyTermView, p: int) -> Result<PyTermView, ErrorView> {
    match u.ty {
        TyView::Uint(_) => Ok(py(TyView::Field, node1(OpView::UbvToPf(p), u.term))),
        ty => Err(ErrorView::UintToField(ty)),
    }
}

/// An unsigned integer as a field element.
pub fn uint_to_field(u: PyTerm, cfg: &Cfg) -> (r: Result<PyTerm, Error>)
    ensures
        outcome(r) == to_field(u@, cfg@),
{
    match u.ty {
        Ty::Uint(_) => Ok(PyTerm::new(Ty::Field, term1(Op::UbvToPf(default_field(cfg)), u.term))),
        ty => Err(Error::UintToField(ty)),
    }
}

/// The `n` bits of a bit-vector, the most significant first.
pub open spec fn bits_of(u: TermView, n: nat) -> Seq<TermView> {
    Seq::new(n, |i: int| node1(OpView::BvBit((n - 1 - i) as nat), u))
}

/// The bits of an unsigned integer as an array, the most significant first.
pub open spec fn to_bits(u: PyTermView, p: int) -> Result<PyTermView, ErrorView> {
    match u.ty {
        TyView::Uint(n) => Ok(
            py(
                TyView::Array(n, Box::new(TyView::Bool)),
                node(OpView::Array(SortView::Field(p), SortView::Bool), bits_of(u.term, n)),
            ),
        ),
        ty => Err(ErrorView::UintToBits(ty)),
    }
}

/// The bits of an unsigned integer as an array, the most significant first.
pub fn uint_to_bits(u: PyTerm, cfg: &Cfg) -> (r: Result<PyTerm, Error>)
    ensures
        outcome(r) == to_bits(u@, cfg@),
{
    match u.ty {
        Ty::Uint(n) => {
            let mut bits: Vec<Term> = Vec::new();
            let mut i: usize = n;
            assert(terms_view(bits@) =~= bits_of(u.term@, n as nat).take(0));
            while i > 0
                invariant
                    i <= n,
                    terms_view(bits@) == bits_of(u.term@, n as nat).take(n - i),
                decreases i,
            {
                let ghost before = terms_view(bits@);
                i -= 1;
                bits.push(term1(Op::BvBit(i), u.term.clone()));
                assert(terms_view(bits@) =~= before.push(
                    node1(OpView::BvBit(i as nat), u.term@),
                ));
                assert(terms_view(bits@) =~= bits_of(u.term@, n as nat).take(n - i));
            }
            assert(terms_view(bits@) =~= bits_of(u.term@, n as nat));
            assert((Ty::Bool)@ == TyView::Bool);
            Ok(PyTerm::new(Ty::Array(n, Box::new(Ty::Bool)), ir_array(Sort::Bool, bits, cfg)))
        },
        ty => Err(Error::UintToBits(ty)),
    }
}

/// The bit-vector whose bits are the first `n` elements of an array of
/// Booleans, the most significant first.
pub open spec fn joined_bits(barr: TermView, n: nat, p: int) -> TermView {
    node(
        OpView::BvConcat,
        Seq::new(n, |i: int| node1(OpView::BoolToBv, elem(barr, i, p))),
    )
}

/// The unsigned integer with the given bits, the most significant first.
pub open spec fn from_bits(u: PyTermView, p: int) -> Result<PyTermView, ErrorView> {
    match u.ty {
        TyView::Array(n, ty) => if *ty != TyView::Bool {
            Err(ErrorView::UintFromBits(u.ty))
        } else if n == 8 || n == 16 || n == 32 || n == 64 {
            Ok(py(TyView::Uint(n), joined_bits(u.term, n, p)))
        } else {
            Err(ErrorView::UintFromBitsLen(n))
        },
        ty => Err(ErrorView::UintFromBits(ty)),
    }
}

/// The unsigned integer with the given bits, the most significant first.
pub fn uint_from_bits(u: PyTerm, cfg: &Cfg) -> (r: Result<PyTerm, Error>)
    ensures
        outcome(r) == from_bits(u@, cfg@),
{
    match &u.ty {
        Ty::Array(bits, elem_ty) if **elem_ty == Ty::Bool => {
            let n: usize = *bits;
            if n == 8 || n == 16 || n == 32 || n == 64 {
                Ok(PyTerm::new(Ty::Uint(n), bv_from_bits(u.term, n, cfg)))
            } else {
                Err(Error::UintFromBitsLen(n))
            }
        },
        ty => Err(Error::UintFromBits(ty.clone())),
    }
}

/// The `n` bits of a field element as an array, the most significant first.
pub open spec fn field_bits(f: PyTermView, n: nat, p: int) -> Result<PyTermView, ErrorView> {
    match f.ty {
        TyView::Field => to_bits(py(TyView::Uint(n), node1(OpView::PfToBv(n), f.term)), p),
        ty => Err(ErrorView::UintToBits(ty)),
    }
}

/// The `n` bits of a field element as an array, the most significant first.
pub fn field_to_bits(f: PyTerm, n: usize, cfg: &Cfg) -> (r: Result<PyTerm, Error>)
    ensures
        outcome(r) == field_bits(f@, n as nat, cfg@),
{
    match f.ty {
        Ty::Field => uint_to_bits(PyTerm::new(Ty::Uint(n), term1(Op::PfToBv(n), f.term)), cfg),
        ty => Err(Error::UintToBits(ty)),
    }
}

fn bv_from_bits(barr: Term, size: usize, cfg: &Cfg) -> (r: Term)
    ensures
        r@ == joined_bits(barr@, size as nat, cfg@),
{
    let bits = select_all(&barr, size, cfg);
    let ghost want = joined_bits(barr@, size as nat, cfg@).cs;
    let mut bvs: Vec<Term> = Vec::new();
    for z in it: bits
        invariant
            terms_view(it.seq()) == elems(barr@, size as nat, cfg@),
            want == joined_bits(barr@, size as nat, cfg@).cs,
            terms_view(bvs@) == want.take(it.index()),
    {
        let ghost before = terms_view(bvs@);
        proof {
            let all = elems(barr@, size as nat, cfg@);
            assert(all.len() == it.seq().len());
            assert(all[it.index()] == z@);
        }
        bvs.push(term1(Op::BoolToBv, z));
        assert(terms_view(bvs@) =~= before.push(want[it.index()]));
        assert(terms_view(bvs@) =~= want.take(it.index() + 1));
    }
    assert(elems(barr@, size as nat, cfg@).len() == size);
    assert(terms_view(bvs@) =~= want);
    term(Op::BvConcat, bvs)
}

/// Whether the number that one array of bits writes is at most that of
/// another, both of the length `n`.
pub open spec fn bits_le(a: PyTermView, b: PyTermView, n: nat, p: int) -> Result<
    PyTermView,
    ErrorView,
> {
    match (a.ty, b.ty) {
        (TyView::Array(la, ta), TyView::Array(lb, tb)) => if *ta != TyView::Bool || *tb
            != TyView::Bool {
            Err(ErrorView::BitArrayLeElems)
        } else if la != lb {
            Err(ErrorView::BitArrayLeLengths(la, lb))
        } else if la != n {
            Err(ErrorView::BitArrayLeLength(n, la))
        } else {
            Ok(
                py(
                    TyView::Bool,
                    node2(
                        OpView::BvBinPred(BvBinPred::Ule),
                        joined_bits(a.term, n, p),
                        joined_bits(b.term, n, p),
                    ),
                ),
            )
        },
        (ta, tb) => Err(ErrorView::BitArrayLeTypes(ta, tb)),
    }
}

/// Whether the number that one array of bits writes is at most that of
/// another, both of the length `n`.
pub fn bit_array_le(a: PyTerm, b: PyTerm, n: usize, cfg: &Cfg) -> (r: Result<PyTerm, Error>)
    ensures
        outcome(r) == bits_le(a@, b@, n as nat, cfg@),
{
    match (&a.ty, &b.ty) {
        (Ty::Array(la, ta), Ty::Array(lb, tb)) => {
            if **ta != Ty::Bool || **tb != Ty::Bool {
                return Err(Error::BitArrayLeElems);
            } else if *la != *lb {
                return Err(Error::BitArrayLeLengths(*la, *lb));
            } else if *la != n {
                return Err(Error::BitArrayLeLength(n, *la));
            }
        },
        (ta, tb) => {
            return Err(Error::BitArrayLeTypes(ta.clone(), tb.clone()));
        },
    }
    let at = bv_from_bits(a.term, n, cfg);
    let bt = bv_from_bits(b.term, n, cfg);
    Ok(PyTerm::new(Ty::Bool, term2(Op::BvBinPred(BvBinPred::Ule), at, bt)))
}

} // verus!
