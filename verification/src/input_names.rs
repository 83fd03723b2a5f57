//! The names of the variables that inputs are declared with.
use crate::integer::{digit_char, radix_text};
use crate::names::names_distinct;
use crate::pyterm::PyTermView;
use crate::python::{
    elem_vars, field_name_text, field_vars, idx_name_text, input_vars, pre_elem, InputView,
};
use crate::ty::{decimal_text, TyView};
use vstd::prelude::*;

verus! {

/// Whether no character is a dot.
pub open spec fn dotless(s: Seq<char>) -> bool {
    forall|i: int| 0 <= i < s.len() ==> #[trigger] s[i] != '.'
}

/// Whether the fields of each class inside a type have different names without
/// dots.
pub open spec fn plain_names(ty: TyView) -> bool
    decreases ty,
{
    match ty {
        TyView::Array(_, t) => plain_names(*t),
        TyView::DataClass(_, fs) => names_distinct(fs) && all_plain(fs),
        _ => true,
    }
}

pub open spec fn all_plain(fs: Seq<(Seq<char>, TyView)>) -> bool
    decreases fs,
{
    forall|i: int| 0 <= i < fs.len() ==> dotless((#[trigger] fs[i]).0) && plain_names(fs[i].1)
}

/// Whether no two variables have one name.
pub open spec fn all_differ(vs: Seq<InputView>) -> bool {
    forall|i: int, j: int|
        0 <= i < j < vs.len() ==> #[trigger] vs[i].name != #[trigger] vs[j].name
}

/// Whether `n` is `name`, or is it with a dot and more after it.
pub open spec fn extends(name: Seq<char>, n: Seq<char>) -> bool {
    &&& name.len() <= n.len()
    &&& n.take(name.len() as int) == name
    &&& n.len() == name.len() || n[name.len() as int] == '.'
}

/// Whether the names of all variables extend `name`.
pub open spec fn all_extend(vs: Seq<InputView>, name: Seq<char>) -> bool {
    forall|i: int| 0 <= i < vs.len() ==> extends(name, (#[trigger] vs[i]).name)
}

/// The name of a part of what is called `name`.
pub open spec fn part_name(name: Seq<char>, label: Seq<char>) -> Seq<char> {
    name + "."@ + label
}

proof fn lemma_part_name(name: Seq<char>, label: Seq<char>)
    ensures
        part_name(name, label).len() == name.len() + 1 + label.len(),
        part_name(name, label).take(name.len() as int) == name,
        part_name(name, label)[name.len() as int] == '.',
        forall|i: int|
            0 <= i < label.len() ==> part_name(name, label)[name.len() + 1 + i]
                == #[trigger] label[i],
{
    reveal_strlit(".");
    assert(part_name(name, label).take(name.len() as int) =~= name);
}

proof fn lemma_extends_part(name: Seq<char>, label: Seq<char>, n: Seq<char>)
    requires
        extends(part_name(name, label), n),
    ensures
        extends(name, n),
{
    let part = part_name(name, label);
    lemma_part_name(name, label);
    let whole = n.take(part.len() as int);
    assert(n.take(name.len() as int) =~= whole.take(name.len() as int));
    assert(n[name.len() as int] == whole[name.len() as int]);
}

/// What extends the names of two parts with different labels differs.
proof fn lemma_parts_differ(
    name: Seq<char>,
    a: Seq<char>,
    b: Seq<char>,
    u: Seq<char>,
    v: Seq<char>,
)
    requires
        dotless(a),
        dotless(b),
        a != b,
        extends(part_name(name, a), u),
        extends(part_name(name, b), v),
    ensures
        u != v,
{
    if u == v {
        if a.len() <= b.len() {
            lemma_labels_agree(name, a, b, u);
        } else {
            lemma_labels_agree(name, b, a, u);
        }
    }
}

proof fn lemma_labels_agree(name: Seq<char>, a: Seq<char>, b: Seq<char>, u: Seq<char>)
    requires
        dotless(b),
        a.len() <= b.len(),
        extends(part_name(name, a), u),
        extends(part_name(name, b), u),
    ensures
        a == b,
{
    lemma_part_name(name, a);
    lemma_part_name(name, b);
    let pa = part_name(name, a);
    let pb = part_name(name, b);
    let start = name.len() + 1;
    assert forall|i: int| 0 <= i < a.len() implies #[trigger] a[i] == u[start + i] by {
        assert(pa[start + i] == a[i]);
        assert(u.take(pa.len() as int)[start + i] == u[start + i]);
    }
    assert forall|i: int| 0 <= i < b.len() implies #[trigger] b[i] == u[start + i] by {
        assert(pb[start + i] == b[i]);
        assert(u.take(pb.len() as int)[start + i] == u[start + i]);
    }
    if a.len() < b.len() {
        let k = a.len() as int;
        assert(u[pa.len() as int] == '.');
        assert(b[k] == u[start + k]);
        assert(b[k] != '.');
    }
    assert(a =~= b);
}

proof fn lemma_digit(d: nat)
    requires
        d < 10,
    ensures
        digit_char(d) as int == 48 + d,
        digit_char(d) != '.',
{
}

proof fn lemma_decimal_dotless(n: nat)
    ensures
        dotless(radix_text(n, 10)),
    decreases n,
{
    if n < 10 {
        lemma_digit(n);
    } else {
        lemma_decimal_dotless(n / 10);
        lemma_digit(n % 10);
    }
}

/// Different numbers are written differently.
pub proof fn lemma_decimal_injective(m: nat, n: nat)
    requires
        decimal_text(m) == decimal_text(n),
    ensures
        m == n,
    decreases m,
{
    let a = radix_text(m, 10);
    let b = radix_text(n, 10);
    lemma_decimal_nonempty(m / 10);
    lemma_decimal_nonempty(n / 10);
    if m < 10 {
        lemma_digit(m);
        if n < 10 {
            lemma_digit(n);
            assert(a[0] == b[0]);
        } else {
            assert(b.len() == radix_text(n / 10, 10).len() + 1);
        }
    } else if n < 10 {
        assert(a.len() == radix_text(m / 10, 10).len() + 1);
    } else {
        assert(a.drop_last() =~= radix_text(m / 10, 10));
        assert(b.drop_last() =~= radix_text(n / 10, 10));
        lemma_decimal_injective(m / 10, n / 10);
        lemma_digit(m % 10);
        lemma_digit(n % 10);
        assert(a.last() == b.last());
    }
}

proof fn lemma_decimal_nonempty(n: nat)
    ensures
        radix_text(n, 10).len() > 0,
    decreases n,
{
    if n >= 10 {
        lemma_decimal_nonempty(n / 10);
    }
}

/// The names of all the variables for an input extend its name.
pub proof fn lemma_input_names_extend(
    ty: TyView,
    name: Seq<char>,
    visibility: Option<u8>,
    pre: Option<PyTermView>,
    p: int,
)
    ensures
        all_extend(input_vars(ty, name, visibility, pre, p), name),
    decreases ty, 0nat,
{
    let vs = input_vars(ty, name, visibility, pre, p);
    match ty {
        TyView::Array(n, t) => {
            lemma_elem_names(*t, name, visibility, pre, n, p);
            assert forall|i: int| 0 <= i < vs.len() implies extends(
                name,
                (#[trigger] vs[i]).name,
            ) by {
                assert(of_elem(elem_vars(*t, name, visibility, pre, n, p)[i], name, n));
                let k = choose|k: nat|
                    k < n && extends(#[trigger] idx_name_text(name, k), vs[i].name);
                lemma_extends_part(name, decimal_text(k), vs[i].name);
            }
        },
        TyView::MutArray(n) => {
            assert forall|i: int| 0 <= i < vs.len() implies extends(
                name,
                (#[trigger] vs[i]).name,
            ) by {
                let part = part_name(name, decimal_text(i as nat));
                assert(vs[i].name == part);
                assert(part.take(part.len() as int) =~= part);
                lemma_extends_part(name, decimal_text(i as nat), part);
            }
        },
        TyView::DataClass(_, fs) => {
            lemma_field_names(fs, name, visibility, fs.len(), p);
            assert forall|i: int| 0 <= i < vs.len() implies extends(
                name,
                (#[trigger] vs[i]).name,
            ) by {
                assert(of_field(
                    field_vars(fs, name, visibility, fs.len(), p)[i],
                    name,
                    fs,
                    fs.len(),
                ));
                let k = choose|k: int|
                    0 <= k < fs.len() && extends(
                        field_name_text(name, (#[trigger] fs[k]).0),
                        vs[i].name,
                    );
                lemma_extends_part(name, fs[k].0, vs[i].name);
            }
        },
        _ => {
            assert(name.take(name.len() as int) =~= name);
        },
    }
}

/// Whether a variable belongs to one of the first `n` elements of an array.
spec fn of_elem(v: InputView, name: Seq<char>, n: nat) -> bool {
    exists|k: nat| k < n && extends(#[trigger] idx_name_text(name, k), v.name)
}

/// Whether a variable belongs to one of the first `n` fields of a class.
spec fn of_field(v: InputView, name: Seq<char>, fs: Seq<(Seq<char>, TyView)>, n: nat) -> bool {
    exists|k: int|
        0 <= k < n && extends(field_name_text(name, (#[trigger] fs[k]).0), v.name)
}

proof fn lemma_elem_names(
    t: TyView,
    name: Seq<char>,
    visibility: Option<u8>,
    pre: Option<PyTermView>,
    n: nat,
    p: int,
)
    ensures
        forall|i: int|
            0 <= i < elem_vars(t, name, visibility, pre, n, p).len() ==> of_elem(
                #[trigger] elem_vars(t, name, visibility, pre, n, p)[i],
                name,
                n,
            ),
    decreases t, n,
{
    if n > 0 {
        let m = (n - 1) as nat;
        let inner = idx_name_text(name, m);
        let before = elem_vars(t, name, visibility, pre, m, p);
        let last = input_vars(t, inner, visibility, pre_elem(pre, n - 1, p), p);
        let all = elem_vars(t, name, visibility, pre, n, p);
        lemma_elem_names(t, name, visibility, pre, m, p);
        lemma_input_names_extend(t, inner, visibility, pre_elem(pre, n - 1, p), p);
        assert forall|i: int| 0 <= i < all.len() implies of_elem(#[trigger] all[i], name, n) by {
            if i < before.len() {
                assert(all[i] == before[i]);
                assert(of_elem(before[i], name, m));
                let k = choose|k: nat|
                    k < m && extends(#[trigger] idx_name_text(name, k), before[i].name);
                assert(k < n && extends(idx_name_text(name, k), all[i].name));
            } else {
                assert(all[i] == last[i - before.len()]);
                assert(extends(idx_name_text(name, m), all[i].name));
            }
        }
    }
}

proof fn lemma_field_names(
    fs: Seq<(Seq<char>, TyView)>,
    name: Seq<char>,
    visibility: Option<u8>,
    n: nat,
    p: int,
)
    requires
        n <= fs.len(),
    ensures
        forall|i: int|
            0 <= i < field_vars(fs, name, visibility, n, p).len() ==> of_field(
                #[trigger] field_vars(fs, name, visibility, n, p)[i],
                name,
                fs,
                n,
            ),
    decreases fs, n,
{
    if n > 0 {
        let m = (n - 1) as nat;
        let inner = field_name_text(name, fs[n - 1].0);
        let before = field_vars(fs, name, visibility, m, p);
        let last = input_vars(fs[n - 1].1, inner, visibility, None, p);
        let all = field_vars(fs, name, visibility, n, p);
        lemma_field_names(fs, name, visibility, m, p);
        lemma_input_names_extend(fs[n - 1].1, inner, visibility, None, p);
        assert forall|i: int| 0 <= i < all.len() implies of_field(
            #[trigger] all[i],
            name,
            fs,
            n,
        ) by {
            if i < before.len() {
                assert(all[i] == before[i]);
                assert(of_field(before[i], name, fs, m));
            } else {
                assert(all[i] == last[i - before.len()]);
                assert(extends(field_name_text(name, fs[n - 1].0), all[i].name));
            }
        }
    }
}

/// No two variables that an input is declared with have one name.
pub proof fn law_input_names_differ(
    ty: TyView,
    name: Seq<char>,
    visibility: Option<u8>,
    pre: Option<PyTermView>,
    p: int,
)
    requires
        plain_names(ty),
    ensures
        all_differ(input_vars(ty, name, visibility, pre, p)),
    decreases ty, 0nat,
{
    match ty {
        TyView::Array(n, t) => {
            lemma_elem_names_differ(*t, name, visibility, pre, n, p);
        },
        TyView::MutArray(n) => {
            let vs = input_vars(ty, name, visibility, pre, p);
            assert forall|i: int, j: int| 0 <= i < j < vs.len() implies #[trigger] vs[i].name
                != #[trigger] vs[j].name by {
                let a = decimal_text(i as nat);
                let b = decimal_text(j as nat);
                if a == b {
                    lemma_decimal_injective(i as nat, j as nat);
                }
                lemma_decimal_dotless(i as nat);
                lemma_decimal_dotless(j as nat);
                let u = part_name(name, a);
                let v = part_name(name, b);
                assert(u.take(u.len() as int) =~= u);
                assert(v.take(v.len() as int) =~= v);
                lemma_parts_differ(name, a, b, u, v);
            }
        },
        TyView::DataClass(_, fs) => {
            lemma_field_names_differ(fs, name, visibility, fs.len(), p);
        },
        _ => {},
    }
}

proof fn lemma_elem_names_differ(
    t: TyView,
    name: Seq<char>,
    visibility: Option<u8>,
    pre: Option<PyTermView>,
    n: nat,
    p: int,
)
    requires
        plain_names(t),
    ensures
        all_differ(elem_vars(t, name, visibility, pre, n, p)),
    decreases t, n,
{
    if n > 0 {
        let m = (n - 1) as nat;
        let inner = idx_name_text(name, m);
        let before = elem_vars(t, name, visibility, pre, m, p);
        let last = input_vars(t, inner, visibility, pre_elem(pre, n - 1, p), p);
        let all = elem_vars(t, name, visibility, pre, n, p);
        lemma_elem_names(t, name, visibility, pre, m, p);
        lemma_elem_names_differ(t, name, visibility, pre, m, p);
        lemma_input_names_extend(t, inner, visibility, pre_elem(pre, n - 1, p), p);
        law_input_names_differ(t, inner, visibility, pre_elem(pre, n - 1, p), p);
        assert forall|i: int, j: int| 0 <= i < j < all.len() implies #[trigger] all[i].name
            != #[trigger] all[j].name by {
            if j < before.len() {
                assert(before[i].name != before[j].name);
            } else if i >= before.len() {
                assert(last[i - before.len()].name != last[j - before.len()].name);
            } else {
                assert(of_elem(before[i], name, m));
                let k = choose|k: nat|
                    k < m && extends(#[trigger] idx_name_text(name, k), before[i].name);
                assert(extends(inner, last[j - before.len()].name));
                if decimal_text(k) == decimal_text(m) {
                    lemma_decimal_injective(k, m);
                }
                lemma_decimal_dotless(k);
                lemma_decimal_dotless(m);
                lemma_parts_differ(
                    name,
                    decimal_text(k),
                    decimal_text(m),
                    all[i].name,
                    all[j].name,
                );
            }
        }
    }
}

proof fn lemma_field_names_differ(
    fs: Seq<(Seq<char>, TyView)>,
    name: Seq<char>,
    visibility: Option<u8>,
    n: nat,
    p: int,
)
    requires
        n <= fs.len(),
        names_distinct(fs),
        all_plain(fs),
    ensures
        all_differ(field_vars(fs, name, visibility, n, p)),
    decreases fs, n,
{
    if n > 0 {
        let m = (n - 1) as nat;
        let t = fs[n - 1].1;
        let inner = field_name_text(name, fs[n - 1].0);
        let before = field_vars(fs, name, visibility, m, p);
        let last = input_vars(t, inner, visibility, None, p);
        let all = field_vars(fs, name, visibility, n, p);
        assert(plain_names(fs[n - 1].1));
        lemma_field_names(fs, name, visibility, m, p);
        lemma_field_names_differ(fs, name, visibility, m, p);
        lemma_input_names_extend(t, inner, visibility, None, p);
        law_input_names_differ(t, inner, visibility, None, p);
        assert forall|i: int, j: int| 0 <= i < j < all.len() implies #[trigger] all[i].name
            != #[trigger] all[j].name by {
            if j < before.len() {
                assert(before[i].name != before[j].name);
            } else if i >= before.len() {
                assert(last[i - before.len()].name != last[j - before.len()].name);
            } else {
                assert(of_field(before[i], name, fs, m));
                let k = choose|k: int|
                    0 <= k < m && extends(
                        field_name_text(name, (#[trigger] fs[k]).0),
                        before[i].name,
                    );
                assert(extends(inner, last[j - before.len()].name));
                assert(fs[k].0 != fs[n - 1].0);
                assert(dotless(fs[k].0) && dotless(fs[n - 1].0));
                lemma_parts_differ(name, fs[k].0, fs[n - 1].0, all[i].name, all[j].name);
            }
        }
    }
}

} // verus!
