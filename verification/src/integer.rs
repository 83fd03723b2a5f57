//! Integers of any size, held as a sign and 64-bit limbs.
//!
//! The arithmetic is done by `rug`. Each call into it stands in a small
//! function at the end of this file, between limbs and limbs.
use rug::integer::Order;
use vstd::arithmetic::power2::*;
use vstd::prelude::*;
use vstd::string::*;

verus! {

/// One more than the largest limb.
pub open spec fn limb_base() -> nat {
    0x1_0000_0000_0000_0000
}

/// The natural number written by `limbs`, least significant limb first.
pub open spec fn limbs_value(limbs: Seq<u64>) -> nat
    decreases limbs.len(),
{
    if limbs.len() == 0 {
        0
    } else {
        limbs[0] as nat + limb_base() * limbs_value(limbs.drop_first())
    }
}

/// No limb is written that the number does not need.
pub open spec fn canonical(limbs: Seq<u64>) -> bool {
    limbs.len() > 0 ==> limbs.last() != 0
}

/// The number of binary digits of `n`, none for zero.
pub open spec fn bit_length(n: nat) -> nat
    decreases n,
{
    if n == 0 {
        0
    } else {
        1 + bit_length(n / 2)
    }
}

/// Whether the binary digit of `n` with weight `2^i` is set.
pub open spec fn bit_set(n: nat, i: nat) -> bool {
    (n / pow2(i)) % 2 == 1
}

/// The digit with value `d`: `0` to `9`, then `a` onwards.
pub open spec fn digit_char(d: nat) -> char {
    if d < 10 {
        ('0' as int + d) as char
    } else {
        ('a' as int + (d - 10)) as char
    }
}

/// `n` written in the given radix, most significant digit first, with no
/// leading zeros.
pub open spec fn radix_text(n: nat, radix: nat) -> Seq<char>
    decreases n,
{
    if radix < 2 || n < radix {
        seq![digit_char(n)]
    } else {
        proof {
            vstd::arithmetic::div_mod::lemma_div_decreases(n as int, radix as int);
        }
        radix_text(n / radix, radix).push(digit_char(n % radix))
    }
}

/// `i` in decimal, with a minus sign where it is negative.
pub open spec fn integer_text(i: int) -> Seq<char> {
    if i < 0 {
        "-"@ + radix_text(-i as nat, 10)
    } else {
        radix_text(i as nat, 10)
    }
}

/// The most limbs an integer can have: the number of its bits fits in a `u32`.
pub const MAX_LIMBS: usize = 0x3ff_ffff;

/// An integer: a sign and a magnitude in limbs, least significant limb first.
#[derive(Debug, PartialEq, Eq)]
pub struct Integer {
    neg: bool,
    mag: Vec<u64>,
}

impl View for Integer {
    type V = int;

    closed spec fn view(&self) -> int {
        if self.neg {
            -(limbs_value(self.mag@) as int)
        } else {
            limbs_value(self.mag@) as int
        }
    }
}

impl Clone for Integer {
    fn clone(&self) -> (r: Self)
        ensures
            r@ == self@,
    {
        proof {
            use_type_invariant(self);
        }
        let mut mag: Vec<u64> = Vec::new();
        let mut i: usize = 0;
        while i < self.mag.len()
            invariant
                i <= self.mag@.len(),
                mag@ == self.mag@.take(i as int),
            decreases self.mag@.len() - i,
        {
            mag.push(self.mag[i]);
            i += 1;
        }
        assert(mag@ =~= self.mag@);
        Integer { neg: self.neg, mag }
    }
}

impl Integer {
    /// Each value is written in one way only, and is not too long to count its
    /// bits.
    #[verifier::type_invariant]
    spec fn well_formed(self) -> bool {
        &&& canonical(self.mag@)
        &&& self.neg ==> self.mag@.len() > 0
        &&& self.mag@.len() <= MAX_LIMBS
    }

    /// The integer with the magnitude written by `limbs`, least significant
    /// limb first, negated if `neg`.
    pub fn from_limbs(neg: bool, limbs: Vec<u64>) -> (r: Self)
        requires
            limbs@.len() <= MAX_LIMBS,
        ensures
            r@ == if neg { -(limbs_value(limbs@) as int) } else { limbs_value(limbs@) as int },
    {
        let mut mag = limbs;
        while mag.len() > 0 && mag[mag.len() - 1] == 0
            invariant
                mag@.len() <= MAX_LIMBS,
                limbs_value(mag@) == limbs_value(limbs@),
            decreases mag@.len(),
        {
            proof {
                lemma_push_zero(mag@.drop_last());
                assert(mag@ =~= mag@.drop_last().push(0));
            }
            mag.pop();
        }
        Integer { neg: neg && mag.len() > 0, mag }
    }

    /// The integer `v`.
    pub fn from_u64(v: u64) -> (r: Self)
        ensures
            r@ == v,
    {
        let mut limbs: Vec<u64> = Vec::new();
        limbs.push(v);
        proof {
            reveal_with_fuel(limbs_value, 2);
        }
        Integer::from_limbs(false, limbs)
    }

    /// The integer `v`.
    pub fn from_i64(v: i64) -> (r: Self)
        ensures
            r@ == v,
    {
        let m: u64 = if v < 0 {
            (-(v as i128)) as u64
        } else {
            v as u64
        };
        let mut limbs: Vec<u64> = Vec::new();
        limbs.push(m);
        proof {
            reveal_with_fuel(limbs_value, 2);
        }
        Integer::from_limbs(v < 0, limbs)
    }

    /// The limbs of the magnitude, least significant first.
    pub fn limbs(&self) -> (r: &Vec<u64>)
        ensures
            limbs_value(r@) == if self@ < 0 { -self@ } else { self@ },
            canonical(r@),
            r@.len() <= MAX_LIMBS,
    {
        proof {
            use_type_invariant(self);
        }
        &self.mag
    }

    /// Whether the integer is below zero.
    pub fn is_negative(&self) -> (r: bool)
        ensures
            r == (self@ < 0),
    {
        proof {
            use_type_invariant(self);
            if self.neg {
                lemma_canonical_lower_bound(self.mag@);
                lemma_limb_pow_pos((self.mag@.len() - 1) as nat);
            }
        }
        self.neg
    }

    /// The smaller of the integer, which is not negative, and `cap`.
    pub fn up_to(&self, cap: usize) -> (r: usize)
        requires
            self@ >= 0,
        ensures
            r == if self@ < cap { self@ } else { cap as int },
    {
        proof {
            use_type_invariant(self);
            reveal_with_fuel(limbs_value, 2);
            reveal_with_fuel(limb_pow, 2);
            if self.mag@.len() > 0 {
                lemma_canonical_lower_bound(self.mag@);
                lemma_limb_pow_pos((self.mag@.len() - 1) as nat);
            }
            if self.mag@.len() > 1 {
                lemma_limb_pow_monotone(1, (self.mag@.len() - 1) as nat);
            }
        }
        if self.mag.len() == 0 {
            0
        } else if self.mag.len() > 1 || self.mag[0] >= cap as u64 {
            cap
        } else {
            self.mag[0] as usize
        }
    }

    /// Whether the integer is zero.
    pub fn is_zero(&self) -> (r: bool)
        ensures
            r == (self@ == 0),
    {
        proof {
            use_type_invariant(self);
            if self.mag@.len() > 0 {
                lemma_canonical_lower_bound(self.mag@);
                lemma_limb_pow_pos((self.mag@.len() - 1) as nat);
            }
        }
        self.mag.len() == 0
    }

    /// The number of bits of the magnitude.
    pub fn significant_bits(&self) -> (r: u32)
        ensures
            r == bit_length(if self@ < 0 { -self@ } else { self@ } as nat),
    {
        proof {
            use_type_invariant(self);
        }
        limbs_significant_bits(&self.mag)
    }

    /// The bit with weight `2^i` of an integer that is not negative.
    pub fn get_bit(&self, i: u32) -> (r: bool)
        requires
            self@ >= 0,
        ensures
            r == bit_set(self@ as nat, i as nat),
    {
        proof {
            use_type_invariant(self);
        }
        limbs_get_bit(&self.mag, i)
    }

    /// The remainder of the division by `m` that lies between zero and `m`.
    pub fn rem_euc(&self, m: &Integer) -> (r: Integer)
        requires
            m@ > 0,
        ensures
            r@ == self@ % m@,
            0 <= r@ < m@,
    {
        proof {
            use_type_invariant(self);
            use_type_invariant(m);
            vstd::arithmetic::div_mod::lemma_mod_bound(self@, m@);
        }
        let low: Vec<u64> = limbs_rem(&self.mag, &m.mag);
        let ghost p = m@;
        let ghost a = limbs_value(self.mag@) as int;
        proof {
            vstd::arithmetic::div_mod::lemma_mod_bound(a, p);
            lemma_len_monotone(low@, m.mag@);
        }
        if self.neg && low.len() > 0 {
            let high: Vec<u64> = limbs_sub(&m.mag, &low);
            proof {
                lemma_len_monotone(high@, m.mag@);
                lemma_canonical_lower_bound(low@);
                lemma_limb_pow_pos((low@.len() - 1) as nat);
                vstd::arithmetic::div_mod::lemma_fundamental_div_mod(a, p);
                let q = a / p;
                let rest = a % p;
                assert(-a == p * (-q - 1) + (p - rest)) by (nonlinear_arith)
                    requires
                        a == p * q + rest,
                ;
                vstd::arithmetic::div_mod::lemma_fundamental_div_mod_converse(
                    -a,
                    p,
                    -q - 1,
                    p - rest,
                );
            }
            Integer { neg: false, mag: high }
        } else {
            proof {
                if self.neg {
                    vstd::arithmetic::div_mod::lemma_fundamental_div_mod(a, p);
                    let q = a / p;
                    assert(-a == p * (-q) + 0) by (nonlinear_arith)
                        requires
                            a == p * q,
                    ;
                    vstd::arithmetic::div_mod::lemma_fundamental_div_mod_converse(-a, p, -q, 0);
                }
            }
            Integer { neg: false, mag: low }
        }
    }

    /// The magnitude, written in the given radix.
    pub fn to_string_radix(&self, radix: i32) -> (r: String)
        requires
            2 <= radix <= 36,
        ensures
            r@ == radix_text(if self@ < 0 { -self@ } else { self@ } as nat, radix as nat),
    {
        proof {
            use_type_invariant(self);
        }
        limbs_to_string_radix(&self.mag, radix)
    }

    /// The integer in decimal.
    pub fn to_text(&self) -> (r: String)
        ensures
            r@ == integer_text(self@),
    {
        let digits = self.to_string_radix(10);
        if self.is_negative() {
            let mut s = "-".to_owned();
            s.append(digits.as_str());
            s
        } else {
            digits
        }
    }
}

/// `n` in decimal.
pub fn decimal(n: usize) -> (r: String)
    ensures
        r@ == radix_text(n as nat, 10),
{
    Integer::from_u64(n as u64).to_string_radix(10)
}

/// `limb_base` to the power of `n`.
spec fn limb_pow(n: nat) -> nat
    decreases n,
{
    if n == 0 {
        1
    } else {
        limb_base() * limb_pow((n - 1) as nat)
    }
}

proof fn lemma_limb_pow_pos(n: nat)
    ensures
        limb_pow(n) > 0,
    decreases n,
{
    if n > 0 {
        lemma_limb_pow_pos((n - 1) as nat);
    }
}

proof fn lemma_limb_pow_monotone(m: nat, n: nat)
    requires
        m <= n,
    ensures
        limb_pow(m) <= limb_pow(n),
    decreases n,
{
    if m < n {
        lemma_limb_pow_monotone(m, (n - 1) as nat);
    }
}

proof fn lemma_push_zero(s: Seq<u64>)
    ensures
        limbs_value(s.push(0)) == limbs_value(s),
    decreases s.len(),
{
    reveal_with_fuel(limbs_value, 2);
    if s.len() > 0 {
        lemma_push_zero(s.drop_first());
        assert(s.push(0).drop_first() =~= s.drop_first().push(0));
    }
}

proof fn lemma_upper_bound(s: Seq<u64>)
    ensures
        limbs_value(s) < limb_pow(s.len()),
    decreases s.len(),
{
    if s.len() > 0 {
        lemma_upper_bound(s.drop_first());
    }
}

proof fn lemma_canonical_lower_bound(s: Seq<u64>)
    requires
        s.len() > 0,
        canonical(s),
    ensures
        limb_pow((s.len() - 1) as nat) <= limbs_value(s),
    decreases s.len(),
{
    reveal_with_fuel(limbs_value, 2);
    if s.len() > 1 {
        assert(s.drop_first().last() == s.last());
        lemma_canonical_lower_bound(s.drop_first());
    }
}

/// A number takes no more limbs than one that is not smaller.
proof fn lemma_len_monotone(s: Seq<u64>, t: Seq<u64>)
    requires
        canonical(s),
        limbs_value(s) <= limbs_value(t),
    ensures
        s.len() <= t.len(),
{
    if s.len() > t.len() {
        lemma_canonical_lower_bound(s);
        lemma_upper_bound(t);
        lemma_limb_pow_monotone(t.len(), (s.len() - 1) as nat);
    }
}

/// A number that is not zero lies between two neighbouring powers of two, and
/// its number of bits says which.
pub proof fn lemma_bit_length_bounds(n: nat)
    requires
        n > 0,
    ensures
        bit_length(n) > 0,
        pow2((bit_length(n) - 1) as nat) <= n < pow2(bit_length(n)),
    decreases n,
{
    reveal_with_fuel(bit_length, 2);
    lemma2_to64();
    if n > 1 {
        lemma_bit_length_bounds(n / 2);
        lemma_pow2_unfold(bit_length(n));
        lemma_pow2_unfold((bit_length(n) - 1) as nat);
    }
}

/// `rug::Integer::significant_bits`: the number of bits that the absolute
/// value needs, none for zero.
#[verifier::external_body]
fn limbs_significant_bits(limbs: &Vec<u64>) -> (r: u32)
    requires
        limbs@.len() <= MAX_LIMBS,
    ensures
        r == bit_length(limbs_value(limbs@)),
{
    rug::Integer::from_digits(limbs.as_slice(), Order::Lsf).significant_bits()
}

/// `rug::Integer::get_bit`: the binary digit with weight `2^i`.
#[verifier::external_body]
fn limbs_get_bit(limbs: &Vec<u64>, i: u32) -> (r: bool)
    requires
        limbs@.len() <= MAX_LIMBS,
    ensures
        r == bit_set(limbs_value(limbs@), i as nat),
{
    rug::Integer::from_digits(limbs.as_slice(), Order::Lsf).get_bit(i)
}

/// The operator `%` of `rug::Integer`, on numbers that are not negative: the
/// remainder, in as few limbs as it needs.
#[verifier::external_body]
fn limbs_rem(a: &Vec<u64>, m: &Vec<u64>) -> (r: Vec<u64>)
    requires
        a@.len() <= MAX_LIMBS,
        m@.len() <= MAX_LIMBS,
        limbs_value(m@) > 0,
    ensures
        limbs_value(r@) == limbs_value(a@) % limbs_value(m@),
        canonical(r@),
{
    let a = rug::Integer::from_digits(a.as_slice(), Order::Lsf);
    let m = rug::Integer::from_digits(m.as_slice(), Order::Lsf);
    (a % m).to_digits(Order::Lsf)
}

/// The operator `-` of `rug::Integer`, where the difference is not negative:
/// the difference, in as few limbs as it needs.
#[verifier::external_body]
fn limbs_sub(a: &Vec<u64>, b: &Vec<u64>) -> (r: Vec<u64>)
    requires
        a@.len() <= MAX_LIMBS,
        b@.len() <= MAX_LIMBS,
        limbs_value(b@) <= limbs_value(a@),
    ensures
        limbs_value(r@) == limbs_value(a@) - limbs_value(b@),
        canonical(r@),
{
    let a = rug::Integer::from_digits(a.as_slice(), Order::Lsf);
    let b = rug::Integer::from_digits(b.as_slice(), Order::Lsf);
    (a - b).to_digits(Order::Lsf)
}

/// `rug::Integer::to_string_radix`: the number in the given radix, with digits
/// above nine in lower case and no leading zeros.
#[verifier::external_body]
fn limbs_to_string_radix(limbs: &Vec<u64>, radix: i32) -> (r: String)
    requires
        limbs@.len() <= MAX_LIMBS,
        2 <= radix <= 36,
    ensures
        r@ == radix_text(limbs_value(limbs@), radix as nat),
{
    rug::Integer::from_digits(limbs.as_slice(), Order::Lsf).to_string_radix(radix)
}

} // verus!
