//! How many values sorts have, and so how many keys arrays.
use crate::ir::{sorts_view, Sort, SortView};
use vstd::arithmetic::power2::{
    lemma2_to64, lemma_pow2_pos, lemma_pow2_strictly_increases, lemma_pow2_unfold, pow2,
};
use vstd::prelude::*;

verus! {

/// The number of pairs of values, where both numbers are known.
pub open spec fn times(x: Option<nat>, y: Option<nat>) -> Option<nat> {
    match (x, y) {
        (Some(a), Some(b)) => Some(a * b),
        _ => None,
    }
}

/// The number of lists of `n` values.
pub open spec fn lists_count(c: Option<nat>, n: nat) -> Option<nat>
    decreases n,
{
    if n == 0 {
        Some(1)
    } else {
        times(lists_count(c, (n - 1) as nat), c)
    }
}

/// The number of values of a sort, where it is known: not that of a sort that
/// no Python type has.
pub open spec fn sort_count(s: SortView) -> Option<nat>
    decreases s, 0nat,
{
    match s {
        SortView::Bool => Some(2),
        SortView::BitVector(w) => Some(pow2(w)),
        SortView::Field(p) => Some(p as nat),
        SortView::Tuple(ss) => tuple_count(ss, ss.len()),
        SortView::Array(_, v, n) => lists_count(sort_count(*v), n),
        SortView::Foreign(_) => None,
    }
}

/// The number of values of the first `n` components of a tuple.
pub open spec fn tuple_count(ss: Seq<SortView>, n: nat) -> Option<nat>
    decreases ss, n,
{
    if n == 0 || n > ss.len() {
        Some(1)
    } else {
        times(tuple_count(ss, (n - 1) as nat), sort_count(ss[n - 1]))
    }
}

/// The smaller of a number and `cap`; an unknown number is taken to be no
/// smaller.
pub open spec fn at_most(c: Option<nat>, cap: nat) -> nat {
    match c {
        Some(n) => if n < cap {
            n
        } else {
            cap
        },
        None => cap,
    }
}

/// How many of `n` places in an array have a key of the given sort.
pub open spec fn keyed(s: SortView, n: nat) -> nat {
    at_most(sort_count(s), n)
}

/// Whether a number, if it is known, is not zero.
spec fn positive(c: Option<nat>) -> bool {
    c matches Some(n) ==> n >= 1
}

/// A product up to `cap` is that of its factors up to `cap`.
proof fn lemma_at_most_times(x: Option<nat>, y: Option<nat>, cap: nat)
    requires
        positive(x),
        positive(y),
    ensures
        positive(times(x, y)),
        at_most(times(x, y), cap) == at_most(Some(at_most(x, cap) * at_most(y, cap)), cap),
{
    let a = at_most(x, cap);
    let b = at_most(y, cap);
    if cap > 0 {
        assert(a == cap || b == cap ==> a * b >= cap) by (nonlinear_arith)
            requires
                a >= 1,
                b >= 1,
        ;
        match (x, y) {
            (Some(m), Some(n)) => {
                assert(m * n >= 1) by (nonlinear_arith)
                    requires
                        m >= 1,
                        n >= 1,
                ;
                assert(m >= cap || n >= cap ==> m * n >= cap) by (nonlinear_arith)
                    requires
                        m >= 1,
                        n >= 1,
                ;
            },
            _ => {},
        }
    } else {
        match (x, y) {
            (Some(m), Some(n)) => {
                assert(m * n >= 1) by (nonlinear_arith)
                    requires
                        m >= 1,
                        n >= 1,
                ;
            },
            _ => {},
        }
    }
}

/// The product of two numbers, up to `cap`.
fn times_up_to(a: usize, b: usize, cap: usize) -> (r: usize)
    ensures
        r == at_most(Some((a * b) as nat), cap as nat),
{
    if a == 0 {
        return 0;
    }
    proof {
        let q = cap as int / a as int;
        vstd::arithmetic::div_mod::lemma_fundamental_div_mod(cap as int, a as int);
        vstd::arithmetic::div_mod::lemma_mod_bound(cap as int, a as int);
        if b > q {
            assert(a * b >= a * (q + 1)) by (nonlinear_arith)
                requires
                    b >= q + 1,
                    a >= 1,
            ;
            assert(a * (q + 1) == a * q + a) by (nonlinear_arith);
        } else {
            assert(a * b <= a * q) by (nonlinear_arith)
                requires
                    b <= q,
                    a >= 1,
            ;
        }
    }
    if b > cap / a {
        cap
    } else {
        a * b
    }
}

/// Where some lists are enough, longer ones are.
proof fn lemma_lists_count_enough(c: Option<nat>, m: nat, n: nat, cap: nat)
    requires
        positive(c),
        m <= n,
        at_most(lists_count(c, m), cap) == cap,
    ensures
        at_most(lists_count(c, n), cap) == cap,
        positive(lists_count(c, n)),
    decreases n,
{
    lemma_lists_positive(c, n);
    if m < n {
        lemma_lists_count_enough(c, m, (n - 1) as nat, cap);
        lemma_lists_positive(c, (n - 1) as nat);
        lemma_at_most_times(lists_count(c, (n - 1) as nat), c, cap);
        let b = at_most(c, cap);
        if cap > 0 {
            assert(cap * b >= cap) by (nonlinear_arith)
                requires
                    b >= 1,
            ;
        }
    }
}

proof fn lemma_lists_positive(c: Option<nat>, n: nat)
    requires
        positive(c),
    ensures
        positive(lists_count(c, n)),
    decreases n,
{
    if n > 0 {
        lemma_lists_positive(c, (n - 1) as nat);
        lemma_at_most_times(lists_count(c, (n - 1) as nat), c, 0);
    }
}

proof fn lemma_lists_count_one(n: nat)
    ensures
        lists_count(Some(1), n) == Some(1nat),
    decreases n,
{
    if n > 0 {
        lemma_lists_count_one((n - 1) as nat);
        assert(times(Some(1nat), Some(1nat)) == Some(1nat)) by {
            assert(1nat * 1nat == 1nat) by (nonlinear_arith);
        }
    }
}

/// The number of bit-vectors of a width, up to `cap`.
fn bit_vectors_up_to(w: usize, cap: usize) -> (r: usize)
    ensures
        r == at_most(Some(pow2(w as nat)), cap as nat),
{
    let mut r: usize = if cap == 0 {
        0
    } else {
        1
    };
    let mut i: usize = 0;
    proof {
        lemma2_to64();
    }
    while i < w && r < cap
        invariant
            i <= w,
            r <= cap,
            r == at_most(Some(pow2(i as nat)), cap as nat),
        decreases w - i,
    {
        proof {
            lemma_pow2_unfold((i + 1) as nat);
        }
        r = if r >= cap - r {
            cap
        } else {
            r + r
        };
        i += 1;
    }
    proof {
        if i < w {
            lemma_pow2_strictly_increases(i as nat, w as nat);
        }
    }
    r
}

impl Sort {
    /// How many of `cap` places in an array have a key of the sort.
    pub fn keys_up_to(&self, cap: usize) -> (r: usize)
        ensures
            r == keyed(self@, cap as nat),
    {
        self.count_up_to(cap)
    }

    fn count_up_to(&self, cap: usize) -> (r: usize)
        ensures
            r == at_most(sort_count(self@), cap as nat),
            positive(sort_count(self@)),
        decreases *self,
    {
        match self {
            Sort::Bool => if cap < 2 {
                cap
            } else {
                2
            },
            Sort::BitVector(w) => {
                proof {
                    lemma_pow2_pos(*w as nat);
                }
                bit_vectors_up_to(*w, cap)
            },
            Sort::Field(f) => f.modulus().up_to(cap),
            Sort::Tuple(ss) => {
                let ghost all = sorts_view(ss@);
                let mut r: usize = if cap == 0 {
                    0
                } else {
                    1
                };
                let mut i: usize = 0;
                while i < ss.len()
                    invariant
                        *self == Sort::Tuple(*ss),
                        all == sorts_view(ss@),
                        i <= ss@.len(),
                        r == at_most(tuple_count(all, i as nat), cap as nat),
                        positive(tuple_count(all, i as nat)),
                    decreases ss@.len() - i,
                {
                    proof {
                        assert(decreases_to!(*self => self->Tuple_0));
                    }
                    let c: usize = ss[i].count_up_to(cap);
                    proof {
                        assert(all[i as int] == ss@[i as int]@);
                        lemma_at_most_times(
                            tuple_count(all, i as nat),
                            sort_count(all[i as int]),
                            cap as nat,
                        );
                    }
                    r = times_up_to(r, c, cap);
                    i += 1;
                }
                r
            },
            Sort::Array(_, v, n) => {
                let ghost count = sort_count(v@);
                let c: usize = v.count_up_to(cap);
                let mut r: usize = if cap == 0 {
                    0
                } else {
                    1
                };
                let mut i: usize = 0;
                proof {
                    lemma_lists_positive(count, *n as nat);
                }
                if c == 1 && cap > 1 {
                    proof {
                        lemma_lists_count_one(*n as nat);
                    }
                } else {
                    while i < *n && r < cap
                        invariant
                            i <= *n,
                            r <= cap,
                            positive(count),
                            c == at_most(count, cap as nat),
                            r == at_most(lists_count(count, i as nat), cap as nat),
                        decreases *n - i,
                    {
                        proof {
                            lemma_lists_positive(count, i as nat);
                            lemma_at_most_times(lists_count(count, i as nat), count, cap as nat);
                        }
                        r = times_up_to(r, c, cap);
                        i += 1;
                    }
                    proof {
                        if i < *n {
                            lemma_lists_count_enough(count, i as nat, *n as nat, cap as nat);
                        }
                    }
                }
                r
            },
            Sort::Foreign(_) => cap,
        }
    }
}

} // verus!
