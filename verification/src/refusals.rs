//! What each operation accepts, the type of what it gives, and how it refuses
//! the rest.
use crate::arrays::{
    array_size, array_value, coerced, filled, selected, slice_fits, sliced, stored, stored_if,
};
use crate::bits::{bits_le, field_bits, from_bits, to_bits, to_field};
use crate::classes::{field_selected, field_stored};
use crate::error::ErrorView;
use crate::ir::{bv_const, pf_lit, BvBinOp, OpView, SortView, TermView, ValueView};
use crate::names::{lemma_find_name, name_index};
use crate::ops::{
    add_value, and_value, bitand_value, bitor_value, bitxor_value, boolean, choice, cond_value,
    const_val_value, div_value, eq_value, mul_value, neg_value, neq_value, not_value, or_value,
    pow_value, rem_value, shift, shift_fits, sub_value, uge_value, ugt_value, ule_value, ult_value,
};
use crate::pyterm::{all_listable, elems, listable, unwrapped, PyTermView};
use crate::ty::{field_sorts, ty_sort, TyView};
use vstd::arithmetic::power2::pow2;
use vstd::prelude::*;

verus! {

/// Whether an operation that is refused is refused for this reason.
pub open spec fn refused_as<T>(r: Result<T, ErrorView>, e: ErrorView) -> bool {
    r is Err ==> r->Err_0 == e
}

/// Whether an operation, where it is not refused, gives a value of this type.
pub open spec fn gives_ty(r: Result<PyTermView, ErrorView>, ty: TyView) -> bool {
    r is Ok ==> r->Ok_0.ty == ty
}

/// An operator that is refused names itself and the types of its operands, in
/// their order.
pub proof fn law_operators_refuse(a: PyTermView, b: PyTermView, p: int)
    ensures
        refused_as(add_value(a, b), ErrorView::BinaryOp("+"@, a.ty, b.ty)),
        refused_as(sub_value(a, b), ErrorView::BinaryOp("-"@, a.ty, b.ty)),
        refused_as(mul_value(a, b), ErrorView::BinaryOp("*"@, a.ty, b.ty)),
        refused_as(div_value(a, b), ErrorView::BinaryOp("/"@, a.ty, b.ty)),
        refused_as(rem_value(a, b, p), ErrorView::BinaryOp("%"@, a.ty, b.ty)),
        refused_as(bitand_value(a, b), ErrorView::BinaryOp("&"@, a.ty, b.ty)),
        refused_as(bitor_value(a, b), ErrorView::BinaryOp("|"@, a.ty, b.ty)),
        refused_as(bitxor_value(a, b), ErrorView::BinaryOp("^"@, a.ty, b.ty)),
        refused_as(or_value(a, b), ErrorView::BinaryOp("or"@, a.ty, b.ty)),
        refused_as(and_value(a, b), ErrorView::BinaryOp("and"@, a.ty, b.ty)),
        refused_as(ult_value(a, b, p), ErrorView::BinaryOp("<"@, a.ty, b.ty)),
        refused_as(ule_value(a, b, p), ErrorView::BinaryOp("<="@, a.ty, b.ty)),
        refused_as(ugt_value(a, b, p), ErrorView::BinaryOp(">"@, a.ty, b.ty)),
        refused_as(uge_value(a, b, p), ErrorView::BinaryOp(">="@, a.ty, b.ty)),
        refused_as(neg_value(a), ErrorView::UnaryOp("unary-"@, a.ty)),
        refused_as(not_value(a), ErrorView::UnaryOp("not"@, a.ty)),
        refused_as(eq_value(a, b), ErrorView::Dissimilar(a.ty, b.ty)),
        refused_as(neq_value(a, b), ErrorView::Dissimilar(a.ty, b.ty)),
{
}

/// A value is read as a Boolean where it has that type, and is then its own
/// term.
pub proof fn law_boolean_accepts(a: PyTermView)
    ensures
        boolean(a) is Ok <==> a.ty == TyView::Bool,
        boolean(a) matches Ok(t) ==> t == a.term,
        refused_as(boolean(a), ErrorView::NotBool(a.ty)),
{
}

/// A choice takes two values of one type and gives one of that type; a
/// condition has to be a Boolean first.
pub proof fn law_choice_accepts(t: TermView, c: PyTermView, a: PyTermView, b: PyTermView)
    ensures
        choice(t, a, b) is Ok <==> a.ty == b.ty,
        gives_ty(choice(t, a, b), a.ty),
        refused_as(choice(t, a, b), ErrorView::Ite(a.term, b.term)),
        cond_value(c, a, b) is Ok <==> c.ty == TyView::Bool && a.ty == b.ty,
        gives_ty(cond_value(c, a, b), a.ty),
        refused_as(
            cond_value(c, a, b),
            if c.ty == TyView::Bool {
                ErrorView::Ite(a.term, b.term)
            } else {
                ErrorView::NotBool(c.ty)
            },
        ),
        c.ty == TyView::Bool ==> cond_value(c, a, b) == choice(c.term, a, b),
{
}

/// A value becomes a constant of its type where its term folds to one.
pub proof fn law_const_val_accepts(a: PyTermView, folded: TermView)
    ensures
        const_val_value(a, folded) is Ok <==> folded.op is Const,
        const_val_value(a, folded) matches Ok(t) ==> t.term.op == folded.op && t.term.cs.len()
            == 0,
        gives_ty(const_val_value(a, folded), a.ty),
        refused_as(const_val_value(a, folded), ErrorView::NotConstValue(a.term)),
{
}

/// Whether a term is a constant number.
pub open spec fn constant_number(t: TermView) -> bool {
    t.op matches OpView::Const(v) && (v is Field || v is BitVector)
}

/// A power is taken of a field element, to a constant of 32 bits, and is a
/// field element.
pub proof fn law_pow_accepts(a: PyTermView, b: PyTermView, folded: TermView, p: int)
    ensures
        pow_value(a, b, folded, p) is Ok <==> a.ty == TyView::Field && b.ty == TyView::Uint(32)
            && constant_number(folded),
        gives_ty(pow_value(a, b, folded, p), TyView::Field),
        refused_as(
            pow_value(a, b, folded, p),
            if a.ty == TyView::Field && b.ty == TyView::Uint(32) {
                ErrorView::NotConstInt(b.term)
            } else {
                ErrorView::Power(a.term, b.term)
            },
        ),
{
}

/// An unsigned integer is shifted by a constant and keeps its type. That the
/// distance is not constant is said first.
pub proof fn law_shift_accepts(
    name: Seq<char>,
    op: BvBinOp,
    a: PyTermView,
    b: PyTermView,
    folded: TermView,
)
    ensures
        shift(name, op, a, b, folded) is Ok <==> a.ty is Uint && constant_number(folded),
        gives_ty(shift(name, op, a, b, folded), a.ty),
        !constant_number(folded) ==> shift(name, op, a, b, folded) == Err::<
            PyTermView,
            ErrorView,
        >(ErrorView::NotConstInt(b.term)),
        constant_number(folded) ==> refused_as(
            shift(name, op, a, b, folded),
            ErrorView::Shift(
                name,
                a.ty,
                match folded.op->Const_0 {
                    ValueView::Field(f) => f.value,
                    v => v->BitVector_0.uint,
                },
            ),
        ),
{
}

/// A distance fits where the width of what is shifted can hold it.
pub proof fn law_shift_fits(a: PyTermView, w: nat, i: int, v: int, u: nat, p: int)
    requires
        a.ty == TyView::Uint(w),
    ensures
        shift_fits(a, bv_const(v, u)) <==> v < pow2(w),
        shift_fits(a, pf_lit(i, p)) <==> i % p < pow2(w),
{
}

/// The scalars inside a value of any type can be listed, and inside a term of
/// any sort that is made of sorts that Python types have; of an empty array
/// there are none to list.
pub proof fn law_listable(
    ty: TyView,
    k: SortView,
    v: SortView,
    n: nat,
    ss: Seq<SortView>,
    p: int,
)
    ensures
        listable(ty_sort(ty, p)),
        listable(SortView::Array(Box::new(k), Box::new(v), n)) <==> n == 0 || listable(v),
        listable(SortView::Tuple(ss)) <==> forall|i: int|
            0 <= i < ss.len() ==> listable(#[trigger] ss[i]),
        !listable(SortView::Foreign(n)),
    decreases ty,
{
    reveal_with_fuel(listable, 2);
    assert(listable(SortView::Tuple(ss)) <==> all_listable(ss));
    match ty {
        TyView::DataClass(_, fs) => {
            let all = field_sorts(fs, p);
            assert forall|i: int| 0 <= i < all.len() implies listable(#[trigger] all[i]) by {
                law_listable(fs[i].1, k, v, n, ss, p);
            }
            assert(all_listable(all));
        },
        TyView::Array(_, t) => {
            law_listable(*t, k, v, n, ss, p);
        },
        _ => {},
    }
}

/// An array is read as its elements, of the type of its values; nothing else
/// is.
pub proof fn law_elements_accept(a: PyTermView, p: int)
    ensures
        unwrapped(a, p) is Ok <==> a.ty is Array || a.ty is MutArray,
        refused_as(unwrapped(a, p), ErrorView::NotArray(a.ty)),
        unwrapped(a, p) matches Ok(ts) ==> {
            &&& Some(ts.len()) == array_size(a.ty)
            &&& forall|i: int|
                0 <= i < ts.len() ==> (#[trigger] ts[i]).ty == match a.ty {
                    TyView::Array(_, t) => *t,
                    _ => TyView::Field,
                }
            &&& elems(a.term, ts.len(), p).len() == ts.len()
            &&& forall|i: int|
                0 <= i < ts.len() ==> (#[trigger] ts[i]).term == elems(a.term, ts.len(), p)[i]
        },
{
}

/// The size of an array is that of its type.
pub proof fn law_array_size(n: nat, t: TyView)
    ensures
        array_size(TyView::Array(n, Box::new(t))) == Some(n),
        array_size(TyView::MutArray(n)) == Some(n),
        array_size(t) is Some <==> t is Array || t is MutArray,
{
}

/// An array has at least one element and all of one type; it is of that type
/// and of the number of them.
pub proof fn law_array_accepts(ts: Seq<PyTermView>, sort: SortView, p: int)
    ensures
        ts.len() == 0 <==> array_value(ts, sort, p) == Err::<PyTermView, ErrorView>(
            ErrorView::EmptyArray,
        ),
        array_value(ts, sort, p) is Ok <==> ts.len() > 0 && forall|i: int, j: int|
            0 <= i < ts.len() && 0 <= j < ts.len() ==> (#[trigger] ts[i]).ty == (
            #[trigger] ts[j]).ty,
        array_value(ts, sort, p) matches Ok(a) ==> {
            &&& a.ty == TyView::Array(ts.len(), Box::new(ts[0].ty))
            &&& a.term.op == OpView::Array(SortView::Field(p), sort)
            &&& a.term.cs.len() == ts.len()
            &&& forall|i: int| 0 <= i < ts.len() ==> a.term.cs[i] == (#[trigger] ts[i]).term
        },
        ts.len() > 0 ==> refused_as(array_value(ts, sort, p), ErrorView::InconsistentArray),
{
    if forall|i: int, j: int|
        0 <= i < ts.len() && 0 <= j < ts.len() ==> (#[trigger] ts[i]).ty == (#[trigger] ts[j]).ty {
        assert forall|i: int| 0 <= i < ts.len() implies #[trigger] ts[i].ty == ts[0].ty by {}
    }
}

/// A filled array has the type of its value and the size that was asked for.
pub proof fn law_fill_accepts(value: PyTermView, size: nat, p: int)
    ensures
        filled(value, size, p).ty == TyView::Array(size, Box::new(value.ty)),
        filled(value, size, p).term.cs =~= seq![value.term],
        filled(value, size, p).term.op == OpView::Fill(SortView::Field(p), size),
{
}

/// A slice without a start starts at the first element, one without an end
/// ends after the last.
pub proof fn law_slice_open_ends(
    arr: PyTermView,
    start: Option<usize>,
    end: Option<usize>,
    n: usize,
    sort: SortView,
    p: int,
)
    requires
        array_size(arr.ty) == Some(n as nat),
    ensures
        sliced(arr, None, end, sort, p) == sliced(arr, Some(0), end, sort, p),
        sliced(arr, start, None, sort, p) == sliced(arr, start, Some(n), sort, p),
        slice_fits(arr.ty, None, end) == slice_fits(arr.ty, Some(0), end),
        slice_fits(arr.ty, start, None) == slice_fits(arr.ty, start, Some(n)),
{
}

/// A slice from `s` up to `e` fits an array where it ends inside it; it has
/// the elements of the array from `s` on, as many as there are up to `e`, with
/// their type. What is not an array cannot be sliced.
pub proof fn law_slice_accepts(arr: PyTermView, s: usize, e: usize, sort: SortView, p: int)
    ensures
        array_size(arr.ty) matches Some(n) ==> (slice_fits(arr.ty, Some(s), Some(e)) <==> s <= e
            <= n),
        array_size(arr.ty) is None ==> slice_fits(arr.ty, Some(s), Some(e)) && sliced(
            arr,
            Some(s),
            Some(e),
            sort,
            p,
        ) == Err::<PyTermView, ErrorView>(ErrorView::Slice(arr.ty)),
        array_size(arr.ty) matches Some(n) && s < e <= n ==> {
            let r = sliced(arr, Some(s), Some(e), sort, p);
            let ts = unwrapped(arr, p)->Ok_0;
            &&& r is Ok
            &&& r->Ok_0.ty == TyView::Array((e - s) as nat, Box::new(ts[0].ty))
            &&& r->Ok_0.term.op == OpView::Array(SortView::Field(p), sort)
            &&& r->Ok_0.term.cs.len() == e - s
            &&& forall|i: int|
                s <= i < e ==> r->Ok_0.term.cs[i - s] == (#[trigger] ts[i]).term
        },
        array_size(arr.ty) matches Some(n) && s == e <= n ==> sliced(
            arr,
            Some(s),
            Some(e),
            sort,
            p,
        ) == Err::<PyTermView, ErrorView>(ErrorView::EmptyArray),
{
    if array_size(arr.ty) is Some && s <= e <= array_size(arr.ty)->0 {
        let ts = unwrapped(arr, p)->Ok_0;
        let part = ts.subrange(s as int, e as int);
        law_array_accepts(part, sort, p);
        assert forall|i: int, j: int| 0 <= i < part.len() && 0 <= j < part.len() implies (
        #[trigger] part[i]).ty == (#[trigger] part[j]).ty by {
            assert(part[i] == ts[s + i]);
            assert(part[j] == ts[s + j]);
        }
        if s < e {
            assert forall|i: int| s <= i < e implies sliced(
                arr,
                Some(s),
                Some(e),
                sort,
                p,
            )->Ok_0.term.cs[i - s] == (#[trigger] ts[i]).term by {
                assert(part[i - s] == ts[i]);
            }
        }
    }
}

/// A number becomes an index: an unsigned integer converted, a field element
/// as it is. Nothing else does.
pub proof fn law_index_accepts(i: PyTermView, p: int)
    ensures
        coerced(i, p) is Ok <==> i.ty is Uint || i.ty is Field,
        i.ty is Field ==> coerced(i, p) == Ok::<TermView, ErrorView>(i.term),
        i.ty is Uint ==> coerced(i, p) is Ok && coerced(i, p)->Ok_0 == to_field(i, p)->Ok_0.term,
        refused_as(coerced(i, p), ErrorView::Coerce(i.term)),
{
}

/// An array is read at a number, and what is read has the type of its
/// elements.
pub proof fn law_select_accepts(array: PyTermView, idx: PyTermView, p: int)
    ensures
        selected(array, idx, p) is Ok <==> array_size(array.ty) is Some && coerced(idx, p) is Ok,
        gives_ty(
            selected(array, idx, p),
            match array.ty {
                TyView::Array(_, t) => *t,
                _ => TyView::Field,
            },
        ),
        refused_as(selected(array, idx, p), ErrorView::Index(array.ty, idx.ty)),
{
}

/// Writing an element into an array keeps the type of the array. It is taken
/// where the array is one that is not mutable and the index is a number.
pub proof fn law_store_keeps_type(
    array: PyTermView,
    idx: PyTermView,
    val: PyTermView,
    p: int,
)
    ensures
        stored(array, idx, val, p) is Ok <==> array.ty is Array && (idx.ty is Uint
            || idx.ty is Field),
        gives_ty(stored(array, idx, val, p), array.ty),
        refused_as(stored(array, idx, val, p), ErrorView::Index(array.ty, idx.ty)),
        stored(array, idx, val, p) matches Ok(b) ==> {
            &&& stored(b, idx, val, p) is Ok
            &&& eq_value(array, b) is Ok
            &&& selected(b, idx, p) is Ok
            &&& selected(b, idx, p)->Ok_0.ty == selected(array, idx, p)->Ok_0.ty
        },
{
}

/// Writing a number into an array where a condition holds keeps the type of
/// the array. What is refused is the array first, then the index, then the
/// value.
pub proof fn law_store_if_keeps_type(
    array: PyTermView,
    idx: PyTermView,
    val: PyTermView,
    cond: TermView,
    p: int,
)
    ensures
        ({
            let r = stored_if(array, idx, val, cond, p);
            let is_array = array.ty is Array || array.ty is MutArray;
            let index = idx.ty is Uint || idx.ty is Field;
            let number = val.ty is Uint || val.ty is Field;
            &&& r is Ok <==> is_array && index && number
            &&& gives_ty(r, array.ty)
            &&& refused_as(
                r,
                if !is_array {
                    ErrorView::StoreTarget(array.term)
                } else if !index {
                    ErrorView::StoreIndex(idx.term)
                } else {
                    ErrorView::StoreValue(val.term)
                },
            )
            &&& r matches Ok(b) ==> stored_if(b, idx, val, cond, p) is Ok && eq_value(
                array,
                b,
            ) is Ok
        }),
{
}

/// What can be converted between numbers and bits, and the types that come
/// out.
pub proof fn law_conversions_accept(u: PyTermView, n: nat, p: int)
    ensures
        to_field(u, p) is Ok <==> u.ty is Uint,
        gives_ty(to_field(u, p), TyView::Field),
        refused_as(to_field(u, p), ErrorView::UintToField(u.ty)),
        to_bits(u, p) is Ok <==> u.ty is Uint,
        u.ty matches TyView::Uint(w) ==> gives_ty(
            to_bits(u, p),
            TyView::Array(w, Box::new(TyView::Bool)),
        ),
        refused_as(to_bits(u, p), ErrorView::UintToBits(u.ty)),
        field_bits(u, n, p) is Ok <==> u.ty is Field,
        gives_ty(field_bits(u, n, p), TyView::Array(n, Box::new(TyView::Bool))),
        refused_as(field_bits(u, n, p), ErrorView::UintToBits(u.ty)),
{
}

/// Only an array of Booleans becomes an unsigned integer, only at the width of
/// a machine integer, and it is of that width.
pub proof fn law_from_bits_accepts(u: PyTermView, p: int)
    ensures
        ({
            let bools = u.ty matches TyView::Array(_, t) && *t == TyView::Bool;
            let n = u.ty->Array_0;
            &&& from_bits(u, p) is Ok <==> bools && (n == 8 || n == 16 || n == 32 || n == 64)
            &&& gives_ty(from_bits(u, p), TyView::Uint(n))
            &&& refused_as(
                from_bits(u, p),
                if bools {
                    ErrorView::UintFromBitsLen(n)
                } else {
                    ErrorView::UintFromBits(u.ty)
                },
            )
        }),
{
}

/// Arrays of bits are compared where both hold Booleans and have the stated
/// length.
pub proof fn law_bits_le_accepts(a: PyTermView, b: PyTermView, n: nat, p: int)
    ensures
        ({
            let arrays = a.ty is Array && b.ty is Array;
            let bools = *a.ty->Array_1 == TyView::Bool && *b.ty->Array_1 == TyView::Bool;
            let la = a.ty->Array_0;
            let lb = b.ty->Array_0;
            &&& bits_le(a, b, n, p) is Ok <==> arrays && bools && la == n && lb == n
            &&& gives_ty(bits_le(a, b, n, p), TyView::Bool)
            &&& refused_as(
                bits_le(a, b, n, p),
                if !arrays {
                    ErrorView::BitArrayLeTypes(a.ty, b.ty)
                } else if !bools {
                    ErrorView::BitArrayLeElems
                } else if la != lb {
                    ErrorView::BitArrayLeLengths(la, lb)
                } else {
                    ErrorView::BitArrayLeLength(n, la)
                },
            )
        }),
{
}

/// A field can be read where the class has one with the name; what is read has
/// the type of the first such field.
pub proof fn law_field_select_accepts(
    name: Seq<char>,
    fs: Seq<(Seq<char>, TyView)>,
    i: int,
    class_: PyTermView,
    field: Seq<char>,
)
    requires
        class_.ty == TyView::DataClass(name, fs),
        0 <= i < fs.len(),
        fs[i].0 == field,
        forall|j: int| 0 <= j < i ==> (#[trigger] fs[j]).0 != field,
    ensures
        field_selected(class_, field) is Ok,
        gives_ty(field_selected(class_, field), fs[i].1),
{
    lemma_find_name(fs, field, 0);
    assert(name_index(fs, field) == Some(i)) by {
        match name_index(fs, field) {
            Some(j) => {
                if j < i {
                    assert(fs[j].0 != field);
                } else if i < j {
                    assert(fs[i].0 != field);
                }
            },
            None => {
                assert(fs[i].0 != field);
            },
        }
    }
}

/// A value can be written into a field of a class where it has exactly the
/// type that is read from the field, and the class keeps its type.
pub proof fn law_field_store_accepts(class_: PyTermView, field: Seq<char>, val: PyTermView)
    ensures
        field_stored(class_, field, val) is Ok <==> (field_selected(class_, field) matches Ok(t)
            && t.ty == val.ty),
        gives_ty(field_stored(class_, field, val), class_.ty),
        field_selected(class_, field) matches Ok(t) ==> refused_as(
            field_stored(class_, field, val),
            ErrorView::FieldType(val.term, field, t.ty),
        ),
        field_selected(class_, field) matches Err(e) ==> refused_as(
            field_stored(class_, field, val),
            e,
        ),
        field_selected(class_, field) matches Ok(t) ==> field_stored(class_, field, t) is Ok,
{
}

/// Only a class has fields, and only those with its names.
pub proof fn law_field_select_refuses(class_: PyTermView, field: Seq<char>)
    ensures
        !(class_.ty is DataClass) ==> field_selected(class_, field) == Err::<
            PyTermView,
            ErrorView,
        >(ErrorView::NotClass(class_.ty)),
        class_.ty matches TyView::DataClass(_, fs) && (forall|j: int|
            0 <= j < fs.len() ==> (#[trigger] fs[j]).0 != field) ==> field_selected(class_, field)
            == Err::<PyTermView, ErrorView>(ErrorView::NoField(field)),
{
    match class_.ty {
        TyView::DataClass(_, fs) => {
            lemma_find_name(fs, field, 0);
        },
        _ => {},
    }
}

} // verus!
