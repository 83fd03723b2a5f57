//! The order of names, and lists kept in it.
use vstd::prelude::*;

verus! {

/// Whether `a` comes before `b`: character by character, a prefix first.
pub open spec fn name_lt(a: Seq<char>, b: Seq<char>) -> bool
    decreases a.len(),
{
    if b.len() == 0 {
        false
    } else if a.len() == 0 {
        true
    } else if a[0] != b[0] {
        (a[0] as int) < (b[0] as int)
    } else {
        name_lt(a.drop_first(), b.drop_first())
    }
}

/// Whether two texts are the same.
pub fn same_text(a: &str, b: &str) -> (r: bool)
    ensures
        r == (a@ == b@),
{
    let n = a.unicode_len();
    if n != b.unicode_len() {
        return false;
    }
    let mut i: usize = 0;
    while i < n
        invariant
            i <= n,
            n == a@.len(),
            n == b@.len(),
            forall|j: int| 0 <= j < i ==> a@[j] == b@[j],
        decreases n - i,
    {
        if a.get_char(i) != b.get_char(i) {
            return false;
        }
        i += 1;
    }
    assert(a@ =~= b@);
    true
}

/// Whether `a` comes before `b`.
pub fn name_before(a: &str, b: &str) -> (r: bool)
    ensures
        r == name_lt(a@, b@),
{
    let m = a.unicode_len();
    let n = b.unicode_len();
    let mut i: usize = 0;
    proof {
        assert(a@.skip(0) =~= a@);
        assert(b@.skip(0) =~= b@);
    }
    while i < m && i < n
        invariant
            i <= m,
            i <= n,
            m == a@.len(),
            n == b@.len(),
            name_lt(a@, b@) == name_lt(a@.skip(i as int), b@.skip(i as int)),
        decreases m - i,
    {
        let c = a.get_char(i);
        let d = b.get_char(i);
        if c != d {
            return (c as u32) < (d as u32);
        }
        proof {
            assert(a@.skip(i as int).drop_first() =~= a@.skip(i + 1));
            assert(b@.skip(i as int).drop_first() =~= b@.skip(i + 1));
        }
        i += 1;
    }
    m < n
}

/// Where a new entry called `name` belongs in an ordered list: after every
/// entry that it does not come before.
pub open spec fn name_position<T>(fs: Seq<(Seq<char>, T)>, name: Seq<char>) -> int
    decreases fs.len(),
{
    if fs.len() == 0 || name_lt(name, fs[0].0) {
        0
    } else {
        1 + name_position(fs.drop_first(), name)
    }
}

/// The entries in the order of their names, those with one name in the order
/// they are given in.
pub open spec fn by_name<T>(fs: Seq<(Seq<char>, T)>) -> Seq<(Seq<char>, T)>
    decreases fs.len(),
{
    if fs.len() == 0 {
        fs
    } else {
        let rest = by_name(fs.drop_last());
        rest.insert(name_position(rest, fs.last().0), fs.last())
    }
}

/// Whether no entry comes before one that stands earlier.
pub open spec fn names_ordered<T>(fs: Seq<(Seq<char>, T)>) -> bool {
    forall|i: int, j: int|
        0 <= i < j < fs.len() ==> !name_lt(#[trigger] fs[j].0, #[trigger] fs[i].0)
}

/// Whether no two entries have one name.
pub open spec fn names_distinct<T>(fs: Seq<(Seq<char>, T)>) -> bool {
    forall|i: int, j: int|
        0 <= i < j < fs.len() ==> #[trigger] fs[i].0 != #[trigger] fs[j].0
}

/// The first entry called `key`, counted from `from` on.
pub open spec fn find_name<T>(fs: Seq<(Seq<char>, T)>, key: Seq<char>, from: int) -> Option<int>
    decreases fs.len() - from,
{
    if from < 0 || from >= fs.len() {
        None
    } else if fs[from].0 == key {
        Some(from)
    } else {
        find_name(fs, key, from + 1)
    }
}

/// The place of the first entry called `key`.
pub open spec fn name_index<T>(fs: Seq<(Seq<char>, T)>, key: Seq<char>) -> Option<int> {
    find_name(fs, key, 0)
}

/// The last of the first `n` entries that is called `key`.
pub open spec fn last_named<T>(fs: Seq<(Seq<char>, T)>, key: Seq<char>, n: nat) -> Option<int>
    decreases n,
{
    if n == 0 || n > fs.len() {
        None
    } else if fs[n - 1].0 == key {
        Some(n - 1)
    } else {
        last_named(fs, key, (n - 1) as nat)
    }
}

/// For each name in an ordered list, up to the place `n` there, the place of
/// the last entry of `fs` that has it.
pub open spec fn slots<S, T>(order: Seq<(Seq<char>, S)>, fs: Seq<(Seq<char>, T)>, n: nat) -> Seq<
    int,
>
    decreases n,
{
    if n == 0 || n > order.len() {
        Seq::empty()
    } else {
        let before = slots(order, fs, (n - 1) as nat);
        let key = order[n - 1].0;
        match last_named(fs, key, fs.len()) {
            Some(j) => if name_index(order, key) == Some(n - 1) {
                before.push(j)
            } else {
                before
            },
            None => before,
        }
    }
}

/// What a search finds is the first entry with the name, and it finds one
/// wherever there is one.
pub proof fn lemma_find_name<T>(fs: Seq<(Seq<char>, T)>, key: Seq<char>, from: int)
    requires
        0 <= from,
    ensures
        match find_name(fs, key, from) {
            Some(i) => {
                &&& from <= i < fs.len()
                &&& fs[i].0 == key
                &&& forall|j: int| from <= j < i ==> #[trigger] fs[j].0 != key
            },
            None => forall|j: int| from <= j < fs.len() ==> #[trigger] fs[j].0 != key,
        },
    decreases fs.len() - from,
{
    if from < fs.len() && fs[from].0 != key {
        lemma_find_name(fs, key, from + 1);
    }
}

/// Names are ordered by a strict order: none comes before itself.
pub proof fn lemma_name_lt_irreflexive(a: Seq<char>)
    ensures
        !name_lt(a, a),
    decreases a.len(),
{
    if a.len() > 0 {
        lemma_name_lt_irreflexive(a.drop_first());
    }
}

/// Two names of which neither comes before the other are the same.
pub proof fn lemma_name_lt_total(a: Seq<char>, b: Seq<char>)
    requires
        !name_lt(a, b),
        !name_lt(b, a),
    ensures
        a == b,
    decreases a.len(),
{
    if a.len() > 0 && b.len() > 0 {
        assert(a[0] as int == b[0] as int);
        lemma_name_lt_total(a.drop_first(), b.drop_first());
        assert(a =~= seq![a[0]] + a.drop_first());
        assert(b =~= seq![b[0]] + b.drop_first());
    } else {
        assert(a =~= b);
    }
}

/// What comes before one of two ordered names comes before the later one.
pub proof fn lemma_name_lt_transitive(a: Seq<char>, b: Seq<char>, c: Seq<char>)
    requires
        name_lt(a, b),
        !name_lt(c, b),
    ensures
        name_lt(a, c),
    decreases a.len(),
{
    if a.len() > 0 && c.len() > 0 && a[0] == b[0] && b[0] == c[0] {
        lemma_name_lt_transitive(a.drop_first(), b.drop_first(), c.drop_first());
    }
}

proof fn lemma_name_position<T>(fs: Seq<(Seq<char>, T)>, name: Seq<char>)
    ensures
        0 <= name_position(fs, name) <= fs.len(),
        forall|i: int|
            0 <= i < name_position(fs, name) ==> !name_lt(name, #[trigger] fs[i].0),
        name_position(fs, name) < fs.len() ==> name_lt(name, fs[name_position(fs, name)].0),
    decreases fs.len(),
{
    if fs.len() > 0 && !name_lt(name, fs[0].0) {
        let rest = fs.drop_first();
        lemma_name_position(rest, name);
        let k = name_position(rest, name);
        assert forall|i: int| 0 <= i < k + 1 implies !name_lt(name, #[trigger] fs[i].0) by {
            if i > 0 {
                assert(rest[i - 1] == fs[i]);
            }
        }
    }
}

/// Ordering a list by name gives an ordered list of the same entries.
pub proof fn lemma_by_name<T>(fs: Seq<(Seq<char>, T)>)
    ensures
        by_name(fs).len() == fs.len(),
        names_ordered(by_name(fs)),
        by_name(fs).to_multiset() == fs.to_multiset(),
    decreases fs.len(),
{
    broadcast use vstd::seq_lib::group_to_multiset_ensures;

    if fs.len() > 0 {
        let init = fs.drop_last();
        let rest = by_name(init);
        let x = fs.last();
        lemma_by_name(init);
        lemma_name_position(rest, x.0);
        let k = name_position(rest, x.0);
        let out = rest.insert(k, x);
        assert forall|i: int, j: int| 0 <= i < j < out.len() implies !name_lt(
            #[trigger] out[j].0,
            #[trigger] out[i].0,
        ) by {
            let oi = if i < k { i } else { i - 1 };
            let oj = if j < k { j } else { j - 1 };
            if i == k {
                assert(out[j] == rest[oj]);
                if name_lt(out[j].0, x.0) {
                    lemma_name_lt_irreflexive(rest[oj].0);
                    assert(!name_lt(rest[oj].0, rest[k].0));
                    lemma_name_lt_transitive(x.0, rest[k].0, rest[oj].0);
                    lemma_name_lt_asymmetric(x.0, rest[oj].0);
                }
            } else if j == k {
                assert(out[i] == rest[i]);
            } else {
                assert(out[i] == rest[oi]);
                assert(out[j] == rest[oj]);
            }
        }
        assert(fs =~= init.push(x));
        rest.to_multiset_ensures();
        init.to_multiset_ensures();
        vstd::seq_lib::to_multiset_insert(rest, k, x);
    }
}

/// Two names cannot each come before the other.
proof fn lemma_name_lt_asymmetric(a: Seq<char>, b: Seq<char>)
    ensures
        !(name_lt(a, b) && name_lt(b, a)),
    decreases a.len(),
{
    if a.len() > 0 && b.len() > 0 && a[0] == b[0] {
        lemma_name_lt_asymmetric(a.drop_first(), b.drop_first());
    }
}

/// Ordering a list by name neither loses nor adds an entry.
pub proof fn lemma_by_name_contains<T>(fs: Seq<(Seq<char>, T)>, x: (Seq<char>, T))
    ensures
        by_name(fs).contains(x) <==> fs.contains(x),
{
    broadcast use vstd::seq_lib::group_to_multiset_ensures;

    lemma_by_name(fs);
    fs.to_multiset_ensures();
    by_name(fs).to_multiset_ensures();
    assert(fs.contains(x) <==> fs.to_multiset().count(x) > 0);
    assert(by_name(fs).contains(x) <==> by_name(fs).to_multiset().count(x) > 0);
}

/// Ordering a list by name keeps the names different.
pub proof fn lemma_by_name_distinct<T>(fs: Seq<(Seq<char>, T)>)
    requires
        names_distinct(fs),
    ensures
        names_distinct(by_name(fs)),
    decreases fs.len(),
{
    if fs.len() > 0 {
        let init = fs.drop_last();
        let rest = by_name(init);
        let x = fs.last();
        assert(names_distinct(init)) by {
            assert forall|i: int, j: int| 0 <= i < j < init.len() implies #[trigger] init[i].0
                != #[trigger] init[j].0 by {
                assert(fs[i].0 != fs[j].0);
            }
        }
        lemma_by_name_distinct(init);
        lemma_name_position(rest, x.0);
        let k = name_position(rest, x.0);
        let out = rest.insert(k, x);
        assert forall|i: int| 0 <= i < rest.len() implies (#[trigger] rest[i]).0 != x.0 by {
            lemma_by_name_contains(init, rest[i]);
            assert(rest.contains(rest[i]));
            let j = choose|j: int| 0 <= j < init.len() && init[j] == rest[i];
            assert(fs[j].0 != fs[fs.len() - 1].0);
        }
        assert forall|i: int, j: int| 0 <= i < j < out.len() implies #[trigger] out[i].0
            != #[trigger] out[j].0 by {
            let oi = if i < k { i } else { i - 1 };
            let oj = if j < k { j } else { j - 1 };
            if i == k {
                assert(out[j] == rest[oj]);
            } else if j == k {
                assert(out[i] == rest[oi]);
            } else {
                assert(out[i] == rest[oi]);
                assert(out[j] == rest[oj]);
                assert(rest[oi].0 != rest[oj].0);
            }
        }
    }
}

/// Of a list without repeated names there is one order.
proof fn lemma_ordered_unique<T>(a: Seq<(Seq<char>, T)>, b: Seq<(Seq<char>, T)>)
    requires
        names_ordered(a),
        names_ordered(b),
        names_distinct(a),
        names_distinct(b),
        forall|x: (Seq<char>, T)| #[trigger] a.contains(x) <==> b.contains(x),
    ensures
        a == b,
    decreases a.len(),
{
    if a.len() == 0 {
        if b.len() > 0 {
            assert(b.contains(b[0]));
            assert(a.contains(b[0]));
        }
        assert(a =~= b);
    } else {
        assert(a.contains(a[0]));
        let j = choose|j: int| 0 <= j < b.len() && b[j] == a[0];
        assert(b.contains(b[0]));
        assert(a.contains(b[0]));
        let i = choose|i: int| 0 <= i < a.len() && a[i] == b[0];
        if j != 0 {
            assert(!name_lt(b[j].0, b[0].0));
            assert(b[0].0 != b[j].0);
            if !name_lt(b[0].0, b[j].0) {
                lemma_name_lt_total(b[0].0, b[j].0);
            }
            lemma_name_lt_irreflexive(a[0].0);
            assert(!name_lt(a[i].0, a[0].0));
        }
        let ra = a.drop_first();
        let rb = b.drop_first();
        assert forall|x: int, y: int| 0 <= x < y < ra.len() implies !name_lt(
            #[trigger] ra[y].0,
            #[trigger] ra[x].0,
        ) && ra[x].0 != ra[y].0 by {
            assert(ra[x] == a[x + 1]);
            assert(ra[y] == a[y + 1]);
        }
        assert forall|x: int, y: int| 0 <= x < y < rb.len() implies !name_lt(
            #[trigger] rb[y].0,
            #[trigger] rb[x].0,
        ) && rb[x].0 != rb[y].0 by {
            assert(rb[x] == b[x + 1]);
            assert(rb[y] == b[y + 1]);
        }
        assert forall|x: (Seq<char>, T)| #[trigger] ra.contains(x) <==> rb.contains(x) by {
            lemma_rest_contains(a, x);
            lemma_rest_contains(b, x);
            assert(a.contains(x) <==> b.contains(x));
        }
        lemma_ordered_unique(ra, rb);
        assert(a =~= seq![a[0]] + ra);
        assert(b =~= seq![b[0]] + rb);
    }
}

proof fn lemma_rest_contains<T>(a: Seq<(Seq<char>, T)>, x: (Seq<char>, T))
    requires
        names_distinct(a),
        a.len() > 0,
    ensures
        a.drop_first().contains(x) <==> a.contains(x) && x != a[0],
{
    let rest = a.drop_first();
    if rest.contains(x) {
        let i = choose|i: int| 0 <= i < rest.len() && rest[i] == x;
        assert(a[i + 1] == x);
        assert(a[0].0 != a[i + 1].0);
    }
    if a.contains(x) && x != a[0] {
        let i = choose|i: int| 0 <= i < a.len() && a[i] == x;
        assert(rest[i - 1] == x);
    }
}

/// The order that entries without repeated names are given in does not matter.
pub proof fn law_by_name_order_free<T>(fs: Seq<(Seq<char>, T)>, gs: Seq<(Seq<char>, T)>)
    requires
        names_distinct(fs),
        names_distinct(gs),
        forall|x: (Seq<char>, T)| #[trigger] fs.contains(x) <==> gs.contains(x),
    ensures
        by_name(fs) == by_name(gs),
{
    lemma_by_name(fs);
    lemma_by_name(gs);
    lemma_by_name_distinct(fs);
    lemma_by_name_distinct(gs);
    assert forall|x: (Seq<char>, T)| #[trigger] by_name(fs).contains(x) <==> by_name(gs).contains(
        x,
    ) by {
        lemma_by_name_contains(fs, x);
        lemma_by_name_contains(gs, x);
        assert(fs.contains(x) <==> gs.contains(x));
    }
    lemma_ordered_unique(by_name(fs), by_name(gs));
}

/// A list that is in the order of its names stays as it is.
pub proof fn law_by_name_keeps_ordered<T>(fs: Seq<(Seq<char>, T)>)
    requires
        names_ordered(fs),
    ensures
        by_name(fs) == fs,
    decreases fs.len(),
{
    if fs.len() > 0 {
        let init = fs.drop_last();
        assert(names_ordered(init)) by {
            assert forall|i: int, j: int| 0 <= i < j < init.len() implies !name_lt(
                #[trigger] init[j].0,
                #[trigger] init[i].0,
            ) by {
                assert(!name_lt(fs[j].0, fs[i].0));
            }
        }
        law_by_name_keeps_ordered(init);
        lemma_name_position(init, fs.last().0);
        let k = name_position(init, fs.last().0);
        if k < init.len() {
            assert(!name_lt(fs[fs.len() - 1].0, fs[k].0));
        }
        assert(init.insert(k, fs.last()) =~= fs);
    }
}

/// The last entry with a name is the only one, where names are different.
pub proof fn lemma_last_named<T>(fs: Seq<(Seq<char>, T)>, j: int, n: nat)
    requires
        names_distinct(fs),
        0 <= j < n <= fs.len(),
    ensures
        last_named(fs, fs[j].0, n) == Some(j),
    decreases n,
{
    if j < n - 1 {
        assert(fs[j].0 != fs[n - 1].0);
        lemma_last_named(fs, j, (n - 1) as nat);
    }
}

/// The first entry with a name is the only one, where names are different.
pub proof fn lemma_name_index<T>(fs: Seq<(Seq<char>, T)>, j: int)
    requires
        names_distinct(fs),
        0 <= j < fs.len(),
    ensures
        name_index(fs, fs[j].0) == Some(j),
{
    lemma_find_name(fs, fs[j].0, 0);
    match name_index(fs, fs[j].0) {
        Some(i) => {
            if i < j {
                assert(fs[i].0 != fs[j].0);
            }
        },
        None => {},
    }
}

/// Where names are different, each name in order has its own entry.
pub proof fn lemma_slots<S, T>(order: Seq<(Seq<char>, S)>, fs: Seq<(Seq<char>, T)>, n: nat)
    requires
        names_distinct(order),
        names_distinct(fs),
        n <= order.len(),
        forall|k: int|
            0 <= k < order.len() ==> exists|j: int|
                0 <= j < fs.len() && (#[trigger] fs[j]).0 == (#[trigger] order[k]).0,
    ensures
        slots(order, fs, n).len() == n,
        forall|k: int|
            0 <= k < n ==> 0 <= #[trigger] slots(order, fs, n)[k] < fs.len() && fs[slots(
                order,
                fs,
                n,
            )[k]].0 == order[k].0,
    decreases n,
{
    if n > 0 {
        lemma_slots(order, fs, (n - 1) as nat);
        let key = order[n - 1].0;
        lemma_name_index(order, n - 1);
        let j = choose|j: int| 0 <= j < fs.len() && (#[trigger] fs[j]).0 == order[n - 1].0;
        lemma_last_named(fs, j, fs.len());
        assert(last_named(fs, key, fs.len()) == Some(j));
    }
}

/// Whether two names first differ at the place `k`: one has ended there, or has
/// the smaller character.
pub open spec fn before_at(a: Seq<char>, b: Seq<char>, k: int) -> bool {
    &&& 0 <= k <= a.len()
    &&& k < b.len()
    &&& forall|i: int| 0 <= i < k ==> a[i] == b[i]
    &&& k == a.len() || (a[k] as int) < (b[k] as int)
}

/// A name comes before another where it is a shorter beginning of it, or has
/// the smaller character where the two first differ.
pub proof fn law_name_order(a: Seq<char>, b: Seq<char>)
    ensures
        name_lt(a, b) <==> exists|k: int| before_at(a, b, k),
    decreases a.len(),
{
    if b.len() > 0 && a.len() > 0 && a[0] == b[0] {
        let c = a.drop_first();
        let d = b.drop_first();
        law_name_order(c, d);
        if exists|k: int| before_at(a, b, k) {
            let k = choose|k: int| before_at(a, b, k);
            assert(k > 0);
            assert forall|i: int| 0 <= i < k - 1 implies c[i] == d[i] by {
                assert(a[i + 1] == b[i + 1]);
            }
            assert(before_at(c, d, k - 1));
        }
        if exists|k: int| before_at(c, d, k) {
            let k = choose|k: int| before_at(c, d, k);
            assert forall|i: int| 0 <= i < k + 1 implies a[i] == b[i] by {
                if i > 0 {
                    assert(c[i - 1] == d[i - 1]);
                }
            }
            assert(before_at(a, b, k + 1));
        }
    } else if b.len() > 0 {
        if name_lt(a, b) {
            assert(before_at(a, b, 0));
        }
        if exists|k: int| before_at(a, b, k) {
            let k = choose|k: int| before_at(a, b, k);
            if k > 0 {
                assert(a[0] == b[0]);
            }
        }
    }
}

/// The entries with one name.
pub open spec fn named<T>(fs: Seq<(Seq<char>, T)>, key: Seq<char>) -> Seq<(Seq<char>, T)>
    decreases fs.len(),
{
    if fs.len() == 0 {
        fs
    } else if fs.last().0 == key {
        named(fs.drop_last(), key).push(fs.last())
    } else {
        named(fs.drop_last(), key)
    }
}

proof fn lemma_named_push<T>(fs: Seq<(Seq<char>, T)>, x: (Seq<char>, T), key: Seq<char>)
    ensures
        named(fs.push(x), key) == if x.0 == key {
            named(fs, key).push(x)
        } else {
            named(fs, key)
        },
{
    assert(fs.push(x).drop_last() =~= fs);
}

proof fn lemma_named_insert<T>(
    fs: Seq<(Seq<char>, T)>,
    k: int,
    x: (Seq<char>, T),
    key: Seq<char>,
)
    requires
        0 <= k <= fs.len(),
        forall|i: int| k <= i < fs.len() ==> (#[trigger] fs[i]).0 != x.0,
    ensures
        named(fs.insert(k, x), key) == if x.0 == key {
            named(fs, key).push(x)
        } else {
            named(fs, key)
        },
    decreases fs.len(),
{
    if k == fs.len() {
        assert(fs.insert(k, x) =~= fs.push(x));
        lemma_named_push(fs, x, key);
    } else {
        let init = fs.drop_last();
        assert forall|i: int| k <= i < init.len() implies (#[trigger] init[i]).0 != x.0 by {
            assert(init[i] == fs[i]);
        }
        lemma_named_insert(init, k, x, key);
        assert(fs.insert(k, x) =~= init.insert(k, x).push(fs.last()));
        lemma_named_push(init.insert(k, x), fs.last(), key);
        assert(fs[fs.len() - 1].0 != x.0);
    }
}

/// Ordering a list by name keeps the entries with one name, in the order they
/// are given in.
pub proof fn law_by_name_stable<T>(fs: Seq<(Seq<char>, T)>, key: Seq<char>)
    ensures
        named(by_name(fs), key) == named(fs, key),
    decreases fs.len(),
{
    if fs.len() > 0 {
        let init = fs.drop_last();
        let rest = by_name(init);
        let x = fs.last();
        law_by_name_stable(init, key);
        lemma_by_name(init);
        lemma_name_position(rest, x.0);
        let k = name_position(rest, x.0);
        assert forall|i: int| k <= i < rest.len() implies (#[trigger] rest[i]).0 != x.0 by {
            lemma_name_lt_irreflexive(x.0);
            if i > k {
                assert(!name_lt(rest[i].0, rest[k].0));
            }
        }
        lemma_named_insert(rest, k, x, key);
    }
}

/// What a search from the end finds is the last entry with the name, and it
/// finds one wherever there is one.
pub proof fn law_last_named<T>(fs: Seq<(Seq<char>, T)>, key: Seq<char>, n: nat)
    requires
        n <= fs.len(),
    ensures
        match last_named(fs, key, n) {
            Some(i) => {
                &&& 0 <= i < n
                &&& fs[i].0 == key
                &&& forall|j: int| i < j < n ==> (#[trigger] fs[j]).0 != key
            },
            None => forall|j: int| 0 <= j < n ==> (#[trigger] fs[j]).0 != key,
        },
    decreases n,
{
    if n > 0 && fs[n - 1].0 != key {
        law_last_named(fs, key, (n - 1) as nat);
    }
}

/// The entries that are picked for an ordered list of names: each is the last
/// with its name, they come in strict order, and each name that both lists
/// have is picked.
pub proof fn law_slots<S, T>(order: Seq<(Seq<char>, S)>, fs: Seq<(Seq<char>, T)>, n: nat)
    requires
        names_ordered(order),
        n <= order.len(),
    ensures
        ({
            let all = slots(order, fs, n);
            &&& forall|k: int|
                0 <= k < all.len() ==> 0 <= #[trigger] all[k] < fs.len() && last_named(
                    fs,
                    fs[all[k]].0,
                    fs.len(),
                ) == Some(all[k])
            &&& forall|k: int|
                0 <= k < all.len() ==> exists|i: int|
                    0 <= i < n && order[i].0 == fs[#[trigger] all[k]].0
            &&& forall|k: int, l: int|
                0 <= k < l < all.len() ==> name_lt(
                    fs[#[trigger] all[k]].0,
                    fs[#[trigger] all[l]].0,
                )
            &&& forall|i: int, j: int|
                0 <= i < n && 0 <= j < fs.len() && (#[trigger] order[i]).0 == (
                #[trigger] fs[j]).0 ==> exists|k: int|
                    0 <= k < all.len() && fs[#[trigger] all[k]].0 == fs[j].0
        }),
    decreases n,
{
    if n > 0 {
        let m = (n - 1) as nat;
        law_slots(order, fs, m);
        let before = slots(order, fs, m);
        let all = slots(order, fs, n);
        let key = order[n - 1].0;
        law_last_named(fs, key, fs.len());
        lemma_find_name(order, key, 0);
        let first = name_index(order, key) == Some(n - 1);
        let found = last_named(fs, key, fs.len()) is Some;
        if first && found {
            let j = last_named(fs, key, fs.len())->0;
            assert(all == before.push(j));
            assert forall|k: int| 0 <= k < all.len() implies exists|i: int|
                0 <= i < n && order[i].0 == fs[#[trigger] all[k]].0 by {
                if k < before.len() {
                    assert(all[k] == before[k]);
                    let i = choose|i: int| 0 <= i < m && order[i].0 == fs[before[k]].0;
                    assert(0 <= i < n && order[i].0 == fs[all[k]].0);
                } else {
                    assert(order[n - 1].0 == fs[all[k]].0);
                }
            }
            assert forall|k: int, l: int| 0 <= k < l < all.len() implies name_lt(
                fs[#[trigger] all[k]].0,
                fs[#[trigger] all[l]].0,
            ) by {
                assert(all[k] == before[k]);
                if l < before.len() {
                    assert(all[l] == before[l]);
                } else {
                    let i = choose|i: int| 0 <= i < m && order[i].0 == fs[before[k]].0;
                    assert(!name_lt(order[n - 1].0, order[i].0));
                    assert(order[i].0 != key);
                    if !name_lt(order[i].0, key) {
                        lemma_name_lt_total(order[i].0, key);
                    }
                }
            }
        } else {
            assert(all == before);
            assert forall|k: int| 0 <= k < all.len() implies exists|i: int|
                0 <= i < n && order[i].0 == fs[#[trigger] all[k]].0 by {
                let i = choose|i: int| 0 <= i < m && order[i].0 == fs[before[k]].0;
                assert(0 <= i < n && order[i].0 == fs[all[k]].0);
            }
        }
        assert forall|i: int, j: int|
            0 <= i < n && 0 <= j < fs.len() && (#[trigger] order[i]).0 == (
            #[trigger] fs[j]).0 implies exists|k: int|
            0 <= k < all.len() && fs[#[trigger] all[k]].0 == fs[j].0 by {
            if i < m {
                let k = choose|k: int|
                    0 <= k < before.len() && fs[#[trigger] before[k]].0 == fs[j].0;
                assert(all[k] == before[k]);
            } else if first {
                assert(all[before.len() as int] == last_named(fs, key, fs.len())->0);
            } else {
                let e = name_index(order, key)->0;
                assert(e < n - 1);
                assert(order[e].0 == fs[j].0);
                let k = choose|k: int|
                    0 <= k < before.len() && fs[#[trigger] before[k]].0 == fs[j].0;
                assert(all[k] == before[k]);
            }
        }
    }
}

} // verus!
