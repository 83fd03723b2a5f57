//! Constant values as text.
use crate::integer::{radix_text, Integer};
use crate::ir::{values_view, Op, OpView, Value, ValueView};
use crate::keys::keyed;
use crate::pyterm::{PyTerm, PyTermView};
use crate::ty::{decimal_text, FieldList, Ty, TyView};
use vstd::prelude::*;

verus! {

/// Why a value is not shown, or not to its end.
#[derive(Debug, Clone, Copy, PartialEq, Eq)]
pub enum PrettyError {
    /// The term is not a constant.
    NotConst,
    /// A tuple has a type that is not a data class.
    NotDataClass,
    /// An array has a type that is not an array type.
    NotArray,
}

/// How showing a value ends.
#[derive(Debug, Clone, Copy, PartialEq, Eq)]
pub enum Ending {
    /// All of it is shown.
    Done,
    /// It is shown up to where it fails.
    Failed(PrettyError),
    /// It is shown up to a constant that has no text: a bit-vector whose width
    /// is not that of a machine integer, or a constant that no Python value is.
    Unprintable,
}

/// `text` with zeros before it, up to `width` characters.
pub open spec fn zero_padded(text: Seq<char>, width: nat) -> Seq<char> {
    if text.len() >= width {
        text
    } else {
        Seq::new((width - text.len()) as nat, |i: int| '0') + text
    }
}

/// A constant of a type: its text, up to where showing it ends. Of an array the
/// elements are shown that have a key.
pub open spec fn value_text(ty: TyView, v: ValueView) -> (Seq<char>, Ending)
    decreases v, 0nat,
{
    match v {
        ValueView::Bool(b) => (
            if b {
                "true"@
            } else {
                "false"@
            },
            Ending::Done,
        ),
        ValueView::Field(f) => (decimal_text(f.value as nat) + "f"@, Ending::Done),
        ValueView::BitVector(bv) => if bv.width == 8 || bv.width == 16 || bv.width == 32 || bv.width
            == 64 {
            (
                "0x"@ + zero_padded(radix_text(bv.uint as nat, 16), bv.width / 4),
                Ending::Done,
            )
        } else {
            (Seq::empty(), Ending::Unprintable)
        },
        ValueView::Tuple(vs) => match ty {
            TyView::DataClass(n, fs) => {
                let count = if fs.len() <= vs.len() {
                    fs.len()
                } else {
                    vs.len()
                };
                let inner = fields_text(fs, vs, count);
                match inner.1 {
                    Ending::Done => (n + " { "@ + inner.0 + "}"@, Ending::Done),
                    ending => (n + " { "@ + inner.0, ending),
                }
            },
            _ => (Seq::empty(), Ending::Failed(PrettyError::NotDataClass)),
        },
        ValueView::Array(k, _, vs) => match ty {
            TyView::Array(_, elem_ty) => {
                let inner = elems_text(*elem_ty, vs, keyed(k, vs.len()));
                match inner.1 {
                    Ending::Done => ("["@ + inner.0 + "]"@, Ending::Done),
                    ending => ("["@ + inner.0, ending),
                }
            },
            _ => (Seq::empty(), Ending::Failed(PrettyError::NotArray)),
        },
        ValueView::Foreign(_) => (Seq::empty(), Ending::Unprintable),
    }
}

/// The first `n` fields of a class: names and constants.
pub open spec fn fields_text(
    fs: Seq<(Seq<char>, TyView)>,
    vs: Seq<ValueView>,
    n: nat,
) -> (Seq<char>, Ending)
    decreases vs, n,
{
    if n == 0 || n > vs.len() {
        (Seq::empty(), Ending::Done)
    } else {
        let before = fields_text(fs, vs, (n - 1) as nat);
        match before.1 {
            Ending::Done => {
                let inner = value_text(fs[n - 1].1, vs[n - 1]);
                let text = before.0 + fs[n - 1].0 + ": "@ + inner.0;
                match inner.1 {
                    Ending::Done => (text + ", "@, Ending::Done),
                    ending => (text, ending),
                }
            },
            _ => before,
        }
    }
}

/// The first `n` elements of an array.
pub open spec fn elems_text(ty: TyView, vs: Seq<ValueView>, n: nat) -> (Seq<char>, Ending)
    decreases vs, n,
{
    if n == 0 || n > vs.len() {
        (Seq::empty(), Ending::Done)
    } else {
        let before = elems_text(ty, vs, (n - 1) as nat);
        match before.1 {
            Ending::Done => {
                let inner = value_text(ty, vs[n - 1]);
                let text = before.0 + inner.0;
                match inner.1 {
                    Ending::Done => (text + ", "@, Ending::Done),
                    ending => (text, ending),
                }
            },
            _ => before,
        }
    }
}

/// A value: its text, up to where showing it ends.
pub open spec fn pretty_text(t: PyTermView) -> (Seq<char>, Ending) {
    match t.term.op {
        OpView::Const(v) => value_text(t.ty, v),
        _ => (Seq::empty(), Ending::Failed(PrettyError::NotConst)),
    }
}

/// How a call that shows a value ends.
pub open spec fn ending(r: Result<(), PrettyError>) -> Ending {
    match r {
        Ok(_) => Ending::Done,
        Err(e) => Ending::Failed(e),
    }
}

impl PrettyError {
    /// The error as text.
    pub fn message(&self) -> (r: String)
        ensures
            r@ == (match *self {
                PrettyError::NotConst => "not a const val"@,
                PrettyError::NotDataClass => "expected dataclass, got something else"@,
                PrettyError::NotArray => "expected array, got something else"@,
            }),
    {
        match self {
            PrettyError::NotConst => "not a const val".to_owned(),
            PrettyError::NotDataClass => "expected dataclass, got something else".to_owned(),
            PrettyError::NotArray => "expected array, got something else".to_owned(),
        }
    }
}

impl PyTerm {
    /// Writes a constant value to the end of `f`. Where it fails, what comes
    /// before has been written.
    pub fn pretty(&self, f: &mut String) -> (r: Result<(), PrettyError>)
        requires
            !(pretty_text(self@).1 is Unprintable),
        ensures
            final(f)@ == old(f)@ + pretty_text(self@).0,
            ending(r) == pretty_text(self@).1,
    {
        match self.term.op() {
            Op::Const(v) => pretty_value(&self.ty, v, f),
            _ => {
                assert(f@ =~= old(f)@ + Seq::empty());
                Err(PrettyError::NotConst)
            },
        }
    }
}

impl PyTerm {
    /// How showing the value ends.
    pub fn pretty_ending(&self) -> (r: Ending)
        ensures
            r == pretty_text(self@).1,
    {
        match self.term.op() {
            Op::Const(v) => value_ending(&self.ty, v),
            _ => Ending::Failed(PrettyError::NotConst),
        }
    }
}

fn value_ending(ty: &Ty, v: &Value) -> (r: Ending)
    ensures
        r == value_text(ty@, v@).1,
    decreases *v, 0nat,
{
    match v {
        Value::Bool(_) => Ending::Done,
        Value::Field(_) => Ending::Done,
        Value::BitVector(bv) => {
            let w = bv.width();
            if w == 8 || w == 16 || w == 32 || w == 64 {
                Ending::Done
            } else {
                Ending::Unprintable
            }
        },
        Value::Tuple(vs) => match ty {
            Ty::DataClass(_, fl) => fields_ending(fl, vs),
            _ => Ending::Failed(PrettyError::NotDataClass),
        },
        Value::Array(arr) => match ty {
            Ty::Array(_, inner_ty) => {
                elems_ending(inner_ty, &arr.elems, arr.key_sort.keys_up_to(arr.elems.len()))
            },
            _ => Ending::Failed(PrettyError::NotArray),
        },
        Value::Foreign(_) => Ending::Unprintable,
    }
}

fn fields_ending(fl: &FieldList, vs: &Vec<Value>) -> (r: Ending)
    ensures
        r == fields_text(fl@, values_view(vs@), field_count(*fl, vs@)).1,
    decreases *vs, 0nat,
{
    let ghost vv = values_view(vs@);
    let mut i: usize = 0;
    while i < fl.len() && i < vs.len()
        invariant
            vv == values_view(vs@),
            i <= field_count(*fl, vs@),
            fields_text(fl@, vv, i as nat).1 is Done,
        decreases vs@.len() - i,
    {
        let (_, ty) = fl.get(i);
        assert(vv[i as int] == vs@[i as int]@);
        match value_ending(ty, &vs[i]) {
            Ending::Done => {},
            ending => {
                proof {
                    lemma_fields_text_stops(fl@, vv, (i + 1) as nat, field_count(*fl, vs@));
                }
                return ending;
            },
        }
        i += 1;
    }
    Ending::Done
}

fn elems_ending(ty: &Ty, vs: &Vec<Value>, n: usize) -> (r: Ending)
    requires
        n <= vs@.len(),
    ensures
        r == elems_text(ty@, values_view(vs@), n as nat).1,
    decreases *vs, 0nat,
{
    let ghost vv = values_view(vs@);
    let mut i: usize = 0;
    while i < n
        invariant
            vv == values_view(vs@),
            i <= n <= vs@.len(),
            elems_text(ty@, vv, i as nat).1 is Done,
        decreases n - i,
    {
        assert(vv[i as int] == vs@[i as int]@);
        match value_ending(ty, &vs[i]) {
            Ending::Done => {},
            ending => {
                proof {
                    lemma_elems_text_stops(ty@, vv, (i + 1) as nat, n as nat);
                }
                return ending;
            },
        }
        i += 1;
    }
    Ending::Done
}

/// Writes the hexadecimal digits of a number, at least `width` of them.
fn push_hex(n: &Integer, width: usize, f: &mut String)
    requires
        n@ >= 0,
    ensures
        final(f)@ == old(f)@ + "0x"@ + zero_padded(radix_text(n@ as nat, 16), width as nat),
{
    let digits = n.to_string_radix(16);
    let len = digits.as_str().unicode_len();
    f.append("0x");
    let ghost start = f@;
    let mut i: usize = len;
    proof {
        reveal_strlit("0");
        assert(f@ =~= start + Seq::new(0, |i: int| '0'));
    }
    while i < width
        invariant
            len <= i,
            i <= width || i == len,
            "0"@ =~= seq!['0'],
            f@ == start + Seq::new((i - len) as nat, |i: int| '0'),
        decreases width - i,
    {
        f.append("0");
        i += 1;
        assert(f@ =~= start + Seq::new((i - len) as nat, |i: int| '0'));
    }
    f.append(digits.as_str());
    assert(f@ =~= start + zero_padded(digits@, width as nat));
    assert(f@ =~= old(f)@ + "0x"@ + zero_padded(digits@, width as nat));
}

fn pretty_value(ty: &Ty, v: &Value, f: &mut String) -> (r: Result<(), PrettyError>)
    requires
        !(value_text(ty@, v@).1 is Unprintable),
    ensures
        final(f)@ == old(f)@ + value_text(ty@, v@).0,
        ending(r) == value_text(ty@, v@).1,
    decreases *v, 0nat,
{
    match v {
        Value::Bool(b) => {
            if *b {
                f.append("true");
            } else {
                f.append("false");
            }
            Ok(())
        },
        Value::Field(fe) => {
            f.append(fe.i().to_string_radix(10).as_str());
            f.append("f");
            assert(f@ =~= old(f)@ + value_text(ty@, v@).0);
            Ok(())
        },
        Value::BitVector(bv) => {
            push_hex(bv.uint(), bv.width() / 4, f);
            assert(f@ =~= old(f)@ + value_text(ty@, v@).0);
            Ok(())
        },
        Value::Tuple(vs) => match ty {
            Ty::DataClass(n, fl) => {
                f.append(n.as_str());
                f.append(" { ");
                match pretty_fields(fl, vs, f) {
                    Ok(()) => {
                        f.append("}");
                        assert(f@ =~= old(f)@ + value_text(ty@, v@).0);
                        Ok(())
                    },
                    Err(e) => {
                        assert(f@ =~= old(f)@ + value_text(ty@, v@).0);
                        Err(e)
                    },
                }
            },
            _ => {
                assert(f@ =~= old(f)@ + value_text(ty@, v@).0);
                Err(PrettyError::NotDataClass)
            },
        },
        Value::Array(arr) => match ty {
            Ty::Array(_, inner_ty) => {
                f.append("[");
                let n: usize = arr.key_sort.keys_up_to(arr.elems.len());
                match pretty_elems(inner_ty, &arr.elems, n, f) {
                    Ok(()) => {
                        f.append("]");
                        assert(f@ =~= old(f)@ + value_text(ty@, v@).0);
                        Ok(())
                    },
                    Err(e) => {
                        assert(f@ =~= old(f)@ + value_text(ty@, v@).0);
                        Err(e)
                    },
                }
            },
            _ => {
                assert(f@ =~= old(f)@ + value_text(ty@, v@).0);
                Err(PrettyError::NotArray)
            },
        },
        Value::Foreign(_) => Ok(()),
    }
}

spec fn field_count(fl: FieldList, vs: Seq<Value>) -> nat {
    if fl@.len() <= vs.len() {
        fl@.len()
    } else {
        vs.len()
    }
}

fn pretty_fields(fl: &FieldList, vs: &Vec<Value>, f: &mut String) -> (r: Result<(), PrettyError>)
    requires
        !(fields_text(fl@, values_view(vs@), field_count(*fl, vs@)).1 is Unprintable),
    ensures
        final(f)@ == old(f)@ + fields_text(fl@, values_view(vs@), field_count(*fl, vs@)).0,
        ending(r) == fields_text(fl@, values_view(vs@), field_count(*fl, vs@)).1,
    decreases *vs, 0nat,
{
    let ghost vv = values_view(vs@);
    let mut i: usize = 0;
    proof {
        assert(f@ =~= old(f)@ + fields_text(fl@, vv, 0).0);
    }
    while i < fl.len() && i < vs.len()
        invariant
            vv == values_view(vs@),
            i <= field_count(*fl, vs@),
            !(fields_text(fl@, vv, field_count(*fl, vs@)).1 is Unprintable),
            f@ == old(f)@ + fields_text(fl@, vv, i as nat).0,
            fields_text(fl@, vv, i as nat).1 is Done,
        decreases vs@.len() - i,
    {
        let ghost next = fields_text(fl@, vv, (i + 1) as nat);
        let (name, ty) = fl.get(i);
        proof {
            assert(vv[i as int] == vs@[i as int]@);
            if !(next.1 is Done) {
                lemma_fields_text_stops(fl@, vv, (i + 1) as nat, field_count(*fl, vs@));
            }
        }
        f.append(name);
        f.append(": ");
        match pretty_value(ty, &vs[i], f) {
            Ok(()) => {
                f.append(", ");
                assert(f@ =~= old(f)@ + next.0);
            },
            Err(e) => {
                assert(f@ =~= old(f)@ + next.0);
                return Err(e);
            },
        }
        i += 1;
    }
    Ok(())
}

fn pretty_elems(ty: &Ty, vs: &Vec<Value>, n: usize, f: &mut String) -> (r: Result<
    (),
    PrettyError,
>)
    requires
        n <= vs@.len(),
        !(elems_text(ty@, values_view(vs@), n as nat).1 is Unprintable),
    ensures
        final(f)@ == old(f)@ + elems_text(ty@, values_view(vs@), n as nat).0,
        ending(r) == elems_text(ty@, values_view(vs@), n as nat).1,
    decreases *vs, 0nat,
{
    let ghost vv = values_view(vs@);
    let mut i: usize = 0;
    proof {
        assert(f@ =~= old(f)@ + elems_text(ty@, vv, 0).0);
    }
    while i < n
        invariant
            vv == values_view(vs@),
            i <= n <= vs@.len(),
            !(elems_text(ty@, vv, n as nat).1 is Unprintable),
            f@ == old(f)@ + elems_text(ty@, vv, i as nat).0,
            elems_text(ty@, vv, i as nat).1 is Done,
        decreases n - i,
    {
        let ghost next = elems_text(ty@, vv, (i + 1) as nat);
        proof {
            assert(vv[i as int] == vs@[i as int]@);
            if !(next.1 is Done) {
                lemma_elems_text_stops(ty@, vv, (i + 1) as nat, n as nat);
            }
        }
        match pretty_value(ty, &vs[i], f) {
            Ok(()) => {
                f.append(", ");
                assert(f@ =~= old(f)@ + next.0);
            },
            Err(e) => {
                assert(f@ =~= old(f)@ + next.0);
                return Err(e);
            },
        }
        i += 1;
    }
    Ok(())
}

/// What ends the text of some fields ends the text of more of them.
proof fn lemma_fields_text_stops(
    fs: Seq<(Seq<char>, TyView)>,
    vs: Seq<ValueView>,
    m: nat,
    n: nat,
)
    requires
        m <= n <= vs.len(),
        !(fields_text(fs, vs, m).1 is Done),
    ensures
        fields_text(fs, vs, n) == fields_text(fs, vs, m),
    decreases n,
{
    if m < n {
        lemma_fields_text_stops(fs, vs, m, (n - 1) as nat);
    }
}

/// What ends the text of some elements ends the text of more of them.
proof fn lemma_elems_text_stops(ty: TyView, vs: Seq<ValueView>, m: nat, n: nat)
    requires
        m <= n <= vs.len(),
        !(elems_text(ty, vs, m).1 is Done),
    ensures
        elems_text(ty, vs, n) == elems_text(ty, vs, m),
    decreases n,
{
    if m < n {
        lemma_elems_text_stops(ty, vs, m, (n - 1) as nat);
    }
}

} // verus!
