//! What the texts of numbers, types, constants and errors say.
use crate::error::{error_terms, error_text, ErrorView};
use crate::integer::{digit_char, integer_text, radix_text};
use crate::ir::{OpView, SortView, TermView, ValueView};
use crate::keys::{keyed, sort_count, tuple_count};
use crate::meaning::{bv, fe};
use crate::pretty::{
    elems_text, fields_text, pretty_text, value_text, zero_padded, Ending, PrettyError,
};
use crate::pyterm::PyTermView;
use crate::ty::{decimal_text, shown, shown_fields, ty_text, TyView};
use vstd::arithmetic::power2::{lemma2_to64, lemma_pow2_adds, pow2};
use vstd::prelude::*;

verus! {

/// The value of a digit.
pub open spec fn digit_value(c: char) -> int {
    if '0' <= c <= '9' {
        c as int - '0' as int
    } else {
        c as int - 'a' as int + 10
    }
}

/// Whether a character is a digit of a radix: a decimal digit, or a small
/// letter from `a` on.
pub open spec fn is_digit(c: char, radix: nat) -> bool {
    ('0' <= c <= '9' || 'a' <= c <= 'z') && digit_value(c) < radix
}

/// Whether all characters are digits of a radix.
pub open spec fn all_digits(s: Seq<char>, radix: nat) -> bool {
    forall|i: int| 0 <= i < s.len() ==> is_digit(#[trigger] s[i], radix)
}

/// The number that digits write, the most significant first.
pub open spec fn digits_number(s: Seq<char>, radix: nat) -> int
    decreases s.len(),
{
    if s.len() == 0 {
        0
    } else {
        digits_number(s.drop_last(), radix) * radix + digit_value(s.last())
    }
}

/// Whether digits write a number, without a zero that is not needed.
pub open spec fn writes(s: Seq<char>, n: int, radix: nat) -> bool {
    &&& s.len() > 0
    &&& all_digits(s, radix)
    &&& digits_number(s, radix) == n
    &&& s.len() > 1 ==> s[0] != '0'
}

proof fn lemma_digit(d: nat, radix: nat)
    requires
        d < radix <= 36,
    ensures
        is_digit(digit_char(d), radix),
        digit_value(digit_char(d)) == d,
        d > 0 ==> digit_char(d) != '0',
{
}

/// The text of a number in a radix writes the number.
pub proof fn law_radix_text(n: nat, radix: nat)
    requires
        2 <= radix <= 36,
    ensures
        writes(radix_text(n, radix), n as int, radix),
        n > 0 ==> radix_text(n, radix)[0] != '0',
    decreases n,
{
    let s = radix_text(n, radix);
    if n < radix {
        lemma_digit(n, radix);
        assert(s.drop_last() =~= Seq::empty());
        assert(digits_number(s.drop_last(), radix) == 0);
        assert(0 * radix == 0);
    } else {
        let q = n / radix;
        vstd::arithmetic::div_mod::lemma_div_decreases(n as int, radix as int);
        vstd::arithmetic::div_mod::lemma_fundamental_div_mod(n as int, radix as int);
        vstd::arithmetic::div_mod::lemma_mod_bound(n as int, radix as int);
        assert(q > 0) by {
            vstd::arithmetic::div_mod::lemma_div_non_zero(n as int, radix as int);
        }
        law_radix_text(q, radix);
        lemma_digit(n % radix, radix);
        assert(s.drop_last() =~= radix_text(q, radix));
        assert(radix * q == q * radix) by (nonlinear_arith);
        assert forall|i: int| 0 <= i < s.len() implies is_digit(#[trigger] s[i], radix) by {
            if i < s.len() - 1 {
                assert(s[i] == radix_text(q, radix)[i]);
            }
        }
    }
}

/// The decimal text of an integer writes it, after a minus sign where it is
/// negative.
pub proof fn law_integer_text(i: int)
    ensures
        i >= 0 ==> writes(integer_text(i), i, 10),
        i < 0 ==> integer_text(i).len() > 1 && integer_text(i)[0] == '-' && writes(
            integer_text(i).drop_first(),
            -i,
            10,
        ),
{
    reveal_strlit("-");
    if i >= 0 {
        law_radix_text(i as nat, 10);
    } else {
        law_radix_text((-i) as nat, 10);
        assert(integer_text(i).drop_first() =~= radix_text((-i) as nat, 10));
    }
}

/// What is left of a type without the arrays around it.
pub open spec fn innermost(t: TyView) -> TyView
    decreases t,
{
    match t {
        TyView::Array(_, b) => innermost(*b),
        _ => t,
    }
}

spec fn sizes_text(t: TyView) -> Seq<char>
    decreases t,
{
    match t {
        TyView::Array(n, b) => "["@ + decimal_text(n) + "]"@ + sizes_text(*b),
        _ => Seq::empty(),
    }
}

proof fn lemma_shown(t: TyView, dims: Seq<char>)
    ensures
        shown(t, dims) == ty_text(innermost(t)) + dims + sizes_text(t),
        !(innermost(t) is Array),
    decreases t,
{
    match t {
        TyView::Array(n, b) => {
            lemma_shown(*b, dims + "["@ + decimal_text(n) + "]"@);
            assert(shown(t, dims) =~= ty_text(innermost(t)) + dims + sizes_text(t));
        },
        _ => {
            assert(shown(t, dims) =~= ty_text(t) + dims + Seq::<char>::empty());
        },
    }
}

/// Scalar types and mutable arrays as text.
pub proof fn law_scalar_ty_text(w: nat, n: nat)
    ensures
        ty_text(TyView::Field) == "field"@,
        ty_text(TyView::Bool) == "bool"@,
        ty_text(TyView::Uint(w)) == "s"@ + radix_text(w, 10),
        ty_text(TyView::MutArray(n)) == "MutArray("@ + radix_text(n, 10) + ")"@,
{
    assert(ty_text(TyView::Field) =~= "field"@);
    assert(ty_text(TyView::Bool) =~= "bool"@);
    assert(ty_text(TyView::Uint(w)) =~= "s"@ + radix_text(w, 10));
    assert(ty_text(TyView::MutArray(n)) =~= "MutArray("@ + radix_text(n, 10) + ")"@);
}

/// The text of an array type is that of its innermost type, then its size, and
/// then the sizes that follow in the text of its element type.
pub proof fn law_array_ty_text(n: nat, t: TyView)
    ensures
        ({
            let base = ty_text(innermost(t));
            &&& base.len() <= ty_text(t).len()
            &&& ty_text(t).take(base.len() as int) == base
            &&& ty_text(TyView::Array(n, Box::new(t))) == base + "["@ + radix_text(n, 10) + "]"@
                + ty_text(t).skip(base.len() as int)
        }),
        !(t is Array) ==> ty_text(TyView::Array(n, Box::new(t))) == ty_text(t) + "["@ + radix_text(
            n,
            10,
        ) + "]"@,
{
    let base = ty_text(innermost(t));
    let whole = TyView::Array(n, Box::new(t));
    lemma_shown(t, Seq::empty());
    lemma_shown(whole, Seq::empty());
    assert(ty_text(t) =~= base + sizes_text(t));
    assert(ty_text(t).take(base.len() as int) =~= base);
    assert(ty_text(t).skip(base.len() as int) =~= sizes_text(t));
    assert(ty_text(whole) =~= base + "["@ + radix_text(n, 10) + "]"@ + ty_text(t).skip(
        base.len() as int,
    ));
    if !(t is Array) {
        assert(ty_text(whole) =~= ty_text(t) + "["@ + radix_text(n, 10) + "]"@);
    }
}

proof fn lemma_shown_fields_prefix(
    fs: Seq<(Seq<char>, TyView)>,
    f: (Seq<char>, TyView),
    n: nat,
)
    requires
        n <= fs.len(),
    ensures
        shown_fields(fs.push(f), n) == shown_fields(fs, n),
    decreases n,
{
    if n > 0 {
        if n > 1 {
            lemma_shown_fields_prefix(fs, f, (n - 1) as nat);
        }
        assert(fs.push(f)[n - 1] == fs[n - 1]);
    }
}

/// A class without fields is shown by its name. The first field is added in
/// braces, and each further one before the closing brace, after a comma.
pub proof fn law_class_ty_text(
    name: Seq<char>,
    fs: Seq<(Seq<char>, TyView)>,
    f: (Seq<char>, TyView),
)
    ensures
        ty_text(TyView::DataClass(name, Seq::empty())) == name,
        ({
            let before = ty_text(TyView::DataClass(name, fs));
            let after = ty_text(TyView::DataClass(name, fs.push(f)));
            if fs.len() == 0 {
                after == name + " { "@ + f.0 + ": "@ + ty_text(f.1) + " }"@
            } else {
                after == before.take(before.len() - 2) + ", "@ + f.0 + ": "@ + ty_text(f.1)
                    + " }"@
            }
        }),
{
    reveal_strlit(" }");
    assert(ty_text(TyView::DataClass(name, Seq::empty())) =~= name);
    let gs = fs.push(f);
    lemma_shown_fields_prefix(fs, f, fs.len());
    assert(gs[gs.len() - 1] == f);
    let before = ty_text(TyView::DataClass(name, fs));
    let after = ty_text(TyView::DataClass(name, gs));
    let inner = shown_fields(fs, fs.len());
    assert(after =~= name + " { "@ + shown_fields(gs, gs.len()) + " }"@);
    if fs.len() == 0 {
        assert(after =~= name + " { "@ + f.0 + ": "@ + ty_text(f.1) + " }"@);
    } else {
        assert(before =~= name + " { "@ + inner + " }"@);
        assert(before.take(before.len() - 2) =~= name + " { "@ + inner);
        assert(after =~= before.take(before.len() - 2) + ", "@ + f.0 + ": "@ + ty_text(f.1)
            + " }"@);
    }
}

/// A Boolean constant is shown by its name.
pub proof fn law_bool_text(ty: TyView, b: bool)
    ensures
        value_text(ty, ValueView::Bool(b)).1 is Done,
        b ==> value_text(ty, ValueView::Bool(b)).0 == "true"@,
        !b ==> value_text(ty, ValueView::Bool(b)).0 == "false"@,
{
}

/// A field element is shown by its number in decimal, with an `f` after it.
pub proof fn law_field_text(ty: TyView, x: int, p: int)
    requires
        x >= 0,
    ensures
        value_text(ty, fe(x, p)).1 is Done,
        value_text(ty, fe(x, p)).0.last() == 'f',
        writes(value_text(ty, fe(x, p)).0.drop_last(), x, 10),
{
    reveal_strlit("f");
    law_radix_text(x as nat, 10);
    assert(value_text(ty, fe(x, p)).0.drop_last() =~= radix_text(x as nat, 10));
}

proof fn lemma_digits_bound(s: Seq<char>)
    requires
        all_digits(s, 16),
        s.len() > 0,
        s[0] != '0',
    ensures
        pow2((4 * (s.len() - 1)) as nat) <= digits_number(s, 16),
    decreases s.len(),
{
    let init = s.drop_last();
    lemma2_to64();
    assert(is_digit(s.last(), 16)) by {
        assert(s.last() == s[s.len() - 1]);
    }
    if s.len() == 1 {
        assert(is_digit(s[0], 16));
        assert(init =~= Seq::empty());
        assert(digits_number(init, 16) == 0);
    } else {
        assert forall|i: int| 0 <= i < init.len() implies is_digit(#[trigger] init[i], 16) by {
            assert(init[i] == s[i]);
        }
        lemma_digits_bound(init);
        lemma_pow2_adds((4 * (init.len() - 1)) as nat, 4);
    }
}

proof fn lemma_zeros(s: Seq<char>, k: nat)
    requires
        all_digits(s, 16),
    ensures
        all_digits(Seq::new(k, |i: int| '0') + s, 16),
        digits_number(Seq::new(k, |i: int| '0') + s, 16) == digits_number(s, 16),
    decreases s.len() + k,
{
    let zeros = Seq::new(k, |i: int| '0');
    let t = zeros + s;
    assert forall|i: int| 0 <= i < t.len() implies is_digit(#[trigger] t[i], 16) by {
        if i >= k {
            assert(t[i] == s[i - k]);
        }
    }
    if s.len() > 0 {
        let init = s.drop_last();
        assert forall|i: int| 0 <= i < init.len() implies is_digit(#[trigger] init[i], 16) by {
            assert(init[i] == s[i]);
        }
        lemma_zeros(init, k);
        assert(t.drop_last() =~= zeros + init);
        assert(t.last() == s.last());
    } else if k > 0 {
        lemma_zeros(s, (k - 1) as nat);
        assert(t.drop_last() =~= Seq::new((k - 1) as nat, |i: int| '0') + s);
    } else {
        assert(t =~= s);
    }
}

/// An unsigned integer of a machine width is shown by its hexadecimal digits,
/// as many as the width has, after `0x`. One of another width is not shown.
pub proof fn law_bits_text(ty: TyView, x: int, w: nat)
    requires
        0 <= x < pow2(w),
    ensures
        w == 8 || w == 16 || w == 32 || w == 64 ==> {
            let t = value_text(ty, bv(x, w));
            &&& t.1 is Done
            &&& t.0.len() == 2 + w / 4
            &&& t.0[0] == '0'
            &&& t.0[1] == 'x'
            &&& all_digits(t.0.skip(2), 16)
            &&& digits_number(t.0.skip(2), 16) == x
        },
        w != 8 && w != 16 && w != 32 && w != 64 ==> {
            let t = value_text(ty, bv(x, w));
            &&& t.1 is Unprintable
            &&& t.0.len() == 0
        },
{
    if w == 8 || w == 16 || w == 32 || w == 64 {
        reveal_strlit("0x");
        let s = radix_text(x as nat, 16);
        law_radix_text(x as nat, 16);
        if s.len() > w / 4 {
            lemma_digits_bound(s);
            let e = (4 * (s.len() - 1)) as nat;
            assert(e >= w);
            if e > w {
                vstd::arithmetic::power2::lemma_pow2_strictly_increases(w, e);
            }
        }
        let k = (w / 4 - s.len()) as nat;
        lemma_zeros(s, k);
        let padded = zero_padded(s, w / 4);
        assert(padded =~= Seq::new(k, |i: int| '0') + s);
        assert(value_text(ty, bv(x, w)).0.skip(2) =~= padded);
    }
}

/// Only constants are shown, and they are shown by their value and type.
pub proof fn law_pretty_constants(t: PyTermView)
    ensures
        t.term.op matches OpView::Const(v) ==> pretty_text(t) == value_text(t.ty, v),
        !(t.term.op is Const) ==> pretty_text(t).0.len() == 0 && pretty_text(t).1
            == Ending::Failed(PrettyError::NotConst),
{
}

proof fn lemma_fields_text_prefix(
    fs: Seq<(Seq<char>, TyView)>,
    vs: Seq<ValueView>,
    f: (Seq<char>, TyView),
    v: ValueView,
    n: nat,
)
    requires
        n <= fs.len(),
        n <= vs.len(),
    ensures
        fields_text(fs.push(f), vs.push(v), n) == fields_text(fs, vs, n),
    decreases n,
{
    if n > 0 {
        lemma_fields_text_prefix(fs, vs, f, v, (n - 1) as nat);
        assert(fs.push(f)[n - 1] == fs[n - 1]);
        assert(vs.push(v)[n - 1] == vs[n - 1]);
    }
}

/// A class constant without fields is shown by the name and empty braces. One
/// more field is shown before the closing brace, by its name and value; where
/// the value fails, the text ends there, and where an earlier one failed the
/// field adds nothing.
pub proof fn law_class_text(
    name: Seq<char>,
    fs: Seq<(Seq<char>, TyView)>,
    vs: Seq<ValueView>,
    f: (Seq<char>, TyView),
    v: ValueView,
)
    requires
        fs.len() == vs.len(),
    ensures
        value_text(TyView::DataClass(name, Seq::empty()), ValueView::Tuple(Seq::empty())) == (
            name + " { }"@,
            Ending::Done,
        ),
        ({
            let before = value_text(TyView::DataClass(name, fs), ValueView::Tuple(vs));
            let after = value_text(
                TyView::DataClass(name, fs.push(f)),
                ValueView::Tuple(vs.push(v)),
            );
            let inner = value_text(f.1, v);
            let start = before.0.drop_last() + f.0 + ": "@ + inner.0;
            match (before.1, inner.1) {
                (Ending::Done, Ending::Done) => after == (start + ", }"@, Ending::Done),
                (Ending::Done, ending) => after == (start, ending),
                _ => after == before,
            }
        }),
{
    reveal_strlit(" { ");
    reveal_strlit(" { }");
    reveal_strlit("}");
    reveal_strlit(", ");
    reveal_strlit(", }");
    let empty = value_text(
        TyView::DataClass(name, Seq::empty()),
        ValueView::Tuple(Seq::empty()),
    );
    assert(empty.0 =~= name + " { }"@);
    let gs = fs.push(f);
    let ws = vs.push(v);
    lemma_fields_text_prefix(fs, vs, f, v, fs.len());
    assert(gs[gs.len() - 1] == f);
    assert(ws[ws.len() - 1] == v);
    let before = value_text(TyView::DataClass(name, fs), ValueView::Tuple(vs));
    let after = value_text(TyView::DataClass(name, gs), ValueView::Tuple(ws));
    let inner = value_text(f.1, v);
    let part = fields_text(fs, vs, fs.len());
    if before.1 is Done {
        assert(before.0.drop_last() =~= name + " { "@ + part.0);
        let start = before.0.drop_last() + f.0 + ": "@ + inner.0;
        if inner.1 is Done {
            assert(after.0 =~= start + ", }"@);
        } else {
            assert(after.0 =~= start);
        }
    }
}

/// Fields without a value, and values without a field, are not shown.
pub proof fn law_class_text_matches(
    name: Seq<char>,
    fs: Seq<(Seq<char>, TyView)>,
    vs: Seq<ValueView>,
)
    ensures
        ({
            let n = if fs.len() <= vs.len() {
                fs.len()
            } else {
                vs.len()
            };
            value_text(TyView::DataClass(name, fs), ValueView::Tuple(vs)) == value_text(
                TyView::DataClass(name, fs.take(n as int)),
                ValueView::Tuple(vs.take(n as int)),
            )
        }),
{
    let n = if fs.len() <= vs.len() {
        fs.len()
    } else {
        vs.len()
    };
    lemma_fields_text_take(fs, vs, n, n);
}

proof fn lemma_fields_text_take(
    fs: Seq<(Seq<char>, TyView)>,
    vs: Seq<ValueView>,
    m: nat,
    n: nat,
)
    requires
        m <= n <= fs.len(),
        n <= vs.len(),
    ensures
        fields_text(fs.take(n as int), vs.take(n as int), m) == fields_text(fs, vs, m),
    decreases m,
{
    if m > 0 {
        lemma_fields_text_take(fs, vs, (m - 1) as nat, n);
        assert(fs.take(n as int)[m - 1] == fs[m - 1]);
        assert(vs.take(n as int)[m - 1] == vs[m - 1]);
    }
}

/// A tuple of another type and an array of another type fail before anything
/// is shown.
pub proof fn law_other_types_fail(
    ty: TyView,
    k: SortView,
    s: SortView,
    vs: Seq<ValueView>,
)
    ensures
        !(ty is DataClass) ==> value_text(ty, ValueView::Tuple(vs)).0.len() == 0 && value_text(
            ty,
            ValueView::Tuple(vs),
        ).1 == Ending::Failed(PrettyError::NotDataClass),
        !(ty is Array) ==> value_text(ty, ValueView::Array(k, s, vs)).0.len() == 0 && value_text(
            ty,
            ValueView::Array(k, s, vs),
        ).1 == Ending::Failed(PrettyError::NotArray),
{
}

proof fn lemma_elems_text_prefix(t: TyView, vs: Seq<ValueView>, v: ValueView, n: nat)
    requires
        n <= vs.len(),
    ensures
        elems_text(t, vs.push(v), n) == elems_text(t, vs, n),
    decreases n,
{
    if n > 0 {
        lemma_elems_text_prefix(t, vs, v, (n - 1) as nat);
        assert(vs.push(v)[n - 1] == vs[n - 1]);
    }
}

/// An array constant without elements is shown by empty brackets. One more
/// element that has a key is shown before the closing bracket; where it fails,
/// the text ends there, and where an earlier one failed it adds nothing. One
/// without a key is not shown.
pub proof fn law_array_text(
    n: nat,
    t: TyView,
    k: SortView,
    s: SortView,
    vs: Seq<ValueView>,
    v: ValueView,
)
    ensures
        value_text(
            TyView::Array(n, Box::new(t)),
            ValueView::Array(k, s, Seq::empty()),
        ) == ("[]"@, Ending::Done),
        ({
            let ty = TyView::Array(n, Box::new(t));
            let before = value_text(ty, ValueView::Array(k, s, vs));
            let after = value_text(ty, ValueView::Array(k, s, vs.push(v)));
            let inner = value_text(t, v);
            let start = before.0.drop_last() + inner.0;
            let has_key = match sort_count(k) {
                Some(c) => vs.len() < c,
                None => true,
            };
            if !has_key {
                after == before
            } else {
                match (before.1, inner.1) {
                    (Ending::Done, Ending::Done) => after == (start + ", ]"@, Ending::Done),
                    (Ending::Done, ending) => after == (start, ending),
                    _ => after == before,
                }
            }
        }),
{
    reveal_strlit("[");
    reveal_strlit("[]");
    reveal_strlit("]");
    reveal_strlit(", ");
    reveal_strlit(", ]");
    let ty = TyView::Array(n, Box::new(t));
    let empty = value_text(ty, ValueView::Array(k, s, Seq::empty()));
    assert(empty.0 =~= "[]"@);
    let ws = vs.push(v);
    let before = value_text(ty, ValueView::Array(k, s, vs));
    let after = value_text(ty, ValueView::Array(k, s, ws));
    let inner = value_text(t, v);
    lemma_elems_text_prefix(t, vs, v, keyed(k, vs.len()));
    assert(ws[ws.len() - 1] == v);
    let has_key = match sort_count(k) {
        Some(c) => vs.len() < c,
        None => true,
    };
    if has_key && before.1 is Done {
        let part = elems_text(t, vs, vs.len());
        assert(before.0.drop_last() =~= "["@ + part.0);
        let start = before.0.drop_last() + inner.0;
        if inner.1 is Done {
            assert(after.0 =~= start + ", ]"@);
        } else {
            assert(after.0 =~= start);
        }
    }
}

/// How many values sorts have: two Booleans, the numbers below the modulus or
/// of the width, and the products of those of the parts.
pub proof fn law_sort_count(
    w: nat,
    p: nat,
    k: SortView,
    v: SortView,
    n: nat,
    ss: Seq<SortView>,
    a: nat,
    b: nat,
)
    requires
        sort_count(v) == Some(a),
        sort_count(SortView::Tuple(ss)) == Some(b),
    ensures
        sort_count(SortView::Bool) == Some(2nat),
        sort_count(SortView::BitVector(w)) == Some(pow2(w)),
        sort_count(SortView::Field(p as int)) == Some(p),
        sort_count(SortView::Foreign(n)) is None,
        sort_count(SortView::Tuple(Seq::empty())) == Some(1nat),
        sort_count(SortView::Tuple(ss.push(v))) == Some(b * a),
        sort_count(SortView::Array(Box::new(k), Box::new(v), 0)) == Some(1nat),
        sort_count(SortView::Array(Box::new(k), Box::new(v), n)) matches Some(c) ==> sort_count(
            SortView::Array(Box::new(k), Box::new(v), n + 1),
        ) == Some(c * a),
        forall|m: nat|
            #![trigger keyed(v, m)]
            keyed(v, m) == if a < m {
                a
            } else {
                m
            },
{
    reveal_with_fuel(sort_count, 2);
    reveal_with_fuel(tuple_count, 2);
    lemma_tuple_count_prefix(ss, v, ss.len());
    let all = ss.push(v);
    assert(tuple_count(Seq::empty(), 0) == Some(1nat));
    assert(tuple_count(all, all.len()) == Some(b * a));
    assert(all[all.len() - 1] == v);
}

proof fn lemma_tuple_count_prefix(ss: Seq<SortView>, v: SortView, n: nat)
    requires
        n <= ss.len(),
    ensures
        tuple_count(ss.push(v), n) == tuple_count(ss, n),
    decreases n,
{
    if n > 0 {
        lemma_tuple_count_prefix(ss, v, (n - 1) as nat);
        assert(ss.push(v)[n - 1] == ss[n - 1]);
    }
}

/// The messages about operators: each names the operator and the types, in
/// order.
pub proof fn law_operator_messages(
    name: Seq<char>,
    a: TyView,
    b: TyView,
    n: int,
    ts: Seq<Seq<char>>,
)
    ensures
        error_text(ErrorView::BinaryOp(name, a, b), ts) == "Cannot perform op '"@ + name
            + "' on "@ + ty_text(a) + " and "@ + ty_text(b),
        error_text(ErrorView::UnaryOp(name, a), ts) == "Cannot perform op '"@ + name + "' on "@
            + ty_text(a),
        error_text(ErrorView::Shift(name, a, n), ts) == "Cannot perform op '"@ + name + "' on "@
            + ty_text(a) + " and "@ + integer_text(n),
        error_text(ErrorView::Dissimilar(a, b), ts) == "Cannot '==' dissimilar types "@ + ty_text(
            a,
        ) + " and "@ + ty_text(b),
        error_text(ErrorView::NotBool(a), ts) == ty_text(a) + " is not a boolean"@,
{
}

/// The messages about terms: each shows the terms, in order.
pub proof fn law_term_messages(
    a: TermView,
    b: TermView,
    x: Seq<char>,
    y: Seq<char>,
    field: Seq<char>,
    t: TyView,
)
    ensures
        error_terms(ErrorView::Power(a, b)) =~= seq![a, b],
        error_text(ErrorView::Power(a, b), seq![x, y]) == "Cannot compute "@ + x + " ** "@ + y
            + " : must be Field ** U32"@,
        error_terms(ErrorView::Ite(a, b)) =~= seq![a, b],
        error_text(ErrorView::Ite(a, b), seq![x, y]) == "Cannot perform ITE on "@ + x + " and "@
            + y,
        error_terms(ErrorView::NotConstInt(a)) =~= seq![a],
        error_text(ErrorView::NotConstInt(a), seq![x]) == x + " is not a constant integer"@,
        error_terms(ErrorView::NotConstValue(a)) =~= seq![a],
        error_text(ErrorView::NotConstValue(a), seq![x]) == x + " is not a constant value"@,
        error_terms(ErrorView::FieldType(a, field, t)) =~= seq![a],
        error_text(ErrorView::FieldType(a, field, t), seq![x]) == "term "@ + x
            + " assigned to field "@ + field + " of type "@ + ty_text(t),
        error_terms(ErrorView::Coerce(a)) =~= seq![a],
        error_text(ErrorView::Coerce(a), seq![x]) == "Cannot coerce "@ + x
            + " to a field element"@,
        error_terms(ErrorView::StoreTarget(a)) =~= seq![a],
        error_text(ErrorView::StoreTarget(a), seq![x])
            == "Can only call mut_array_store on arrays, not "@ + x,
        error_terms(ErrorView::StoreIndex(a)) =~= seq![a],
        error_text(ErrorView::StoreIndex(a), seq![x]) == error_text(
            ErrorView::Coerce(a),
            seq![x],
        ) + ": mutable array index"@,
        error_terms(ErrorView::StoreValue(a)) =~= seq![a],
        error_text(ErrorView::StoreValue(a), seq![x]) == error_text(
            ErrorView::Coerce(a),
            seq![x],
        ) + ": mutable array value"@,
{
    reveal_strlit(" to a field element");
    reveal_strlit(" to a field element: mutable array index");
    reveal_strlit(" to a field element: mutable array value");
    reveal_strlit(": mutable array index");
    reveal_strlit(": mutable array value");
    assert(" to a field element: mutable array index"@ =~= " to a field element"@
        + ": mutable array index"@);
    assert(" to a field element: mutable array value"@ =~= " to a field element"@
        + ": mutable array value"@);
    assert(error_text(ErrorView::StoreIndex(a), seq![x]) =~= error_text(
        ErrorView::Coerce(a),
        seq![x],
    ) + ": mutable array index"@);
    assert(error_text(ErrorView::StoreValue(a), seq![x]) =~= error_text(
        ErrorView::Coerce(a),
        seq![x],
    ) + ": mutable array value"@);
}

/// Only errors about terms show terms.
pub proof fn law_other_errors_show_no_terms(e: ErrorView)
    requires
        !(e is Power) && !(e is Ite) && !(e is NotConstInt) && !(e is NotConstValue) && !(
        e is FieldType) && !(e is Coerce) && !(e is StoreTarget) && !(e is StoreIndex) && !(
        e is StoreValue),
    ensures
        error_terms(e).len() == 0,
{
}

/// The messages about arrays, bits and classes: each shows the types, names and
/// lengths, in order.
pub proof fn law_data_messages(
    a: TyView,
    b: TyView,
    field: Seq<char>,
    m: nat,
    n: nat,
    ts: Seq<Seq<char>>,
)
    ensures
        error_text(ErrorView::NotArray(a), ts) == "Not an array: "@ + ty_text(a),
        error_text(ErrorView::Slice(a), ts) == "Cannot slice "@ + ty_text(a),
        error_text(ErrorView::Index(a, b), ts) == "Cannot index "@ + ty_text(a) + " using "@
            + ty_text(b),
        error_text(ErrorView::InconsistentArray, ts) == "Inconsistent types in array"@,
        error_text(ErrorView::EmptyArray, ts) == "Empty array"@,
        error_text(ErrorView::NoField(field), ts) == "No field '"@ + field + "'"@,
        error_text(ErrorView::NotClass(a), ts) == ty_text(a) + " is not a class"@,
        error_text(ErrorView::UintToField(a), ts) == "Cannot do uint-to-field on "@ + ty_text(a),
        error_text(ErrorView::UintToBits(a), ts) == "Cannot do uint-to-bits on "@ + ty_text(a),
        error_text(ErrorView::UintFromBits(a), ts) == "Cannot do uint-from-bits on "@ + ty_text(a),
        error_text(ErrorView::UintFromBitsLen(n), ts) == "Cannot do uint-from-bits on len "@
            + radix_text(n, 10) + " array"@,
        error_text(ErrorView::BitArrayLeElems, ts)
            == "bit-array-le must be called on arrays of Bools"@,
        error_text(ErrorView::BitArrayLeLengths(m, n), ts)
            == "bit-array-le called on arrays with lengths "@ + radix_text(m, 10) + " != "@
            + radix_text(n, 10),
        error_text(ErrorView::BitArrayLeLength(m, n), ts) == "bit-array-le::<"@ + radix_text(m, 10)
            + "> called on arrays with length "@ + radix_text(n, 10),
        error_text(ErrorView::BitArrayLeTypes(a, b), ts) == "Cannot do bit-array-le on ("@
            + ty_text(a) + ", "@ + ty_text(b) + ")"@,
{
}

} // verus!
