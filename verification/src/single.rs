//! Single-precision arithmetic over integers.
//!
//! Colour ramps are defined by single-precision interpolation. A single-precision value is held
//! as a whole number over a power of two, and every operation is the exact one followed by
//! rounding to a 24-bit significand, ties to even.

use vstd::arithmetic::power2::*;
use vstd::prelude::*;

use crate::decimal;

verus! {

/// The value `num / 2^shift`.
#[derive(Clone, Copy)]
pub struct Single {
    pub num: i128,
    pub shift: u32,
}

impl View for Single {
    type V = (int, nat);

    open spec fn view(&self) -> (int, nat) {
        (self.num as int, self.shift as nat)
    }
}

/// Bound on the numerators here.
pub const MAX_NUM: i128 = 0x1000_0000_0000;

pub open spec fn abs(n: int) -> nat {
    if n < 0 {
        (-n) as nat
    } else {
        n as nat
    }
}

/// A whole number rounded to 24 significant bits.
pub open spec fn round24(n: int) -> int {
    let k = decimal::excess(abs(n), 1, 24);
    let m = decimal::round_half_even(abs(n), pow2(k)) * pow2(k);
    if n < 0 {
        -m
    } else {
        m as int
    }
}

/// The single-precision quotient of two whole numbers, below `2^24`.
pub open spec fn quotient(n: nat, d: nat) -> (int, nat) {
    let s = decimal::scale(n, d, 24);
    (decimal::round_half_even(n * pow2(s), d) as int, s)
}

/// The larger of two shifts.
pub open spec fn common(a: (int, nat), b: (int, nat)) -> nat {
    if a.1 < b.1 {
        b.1
    } else {
        a.1
    }
}

/// The numerator of `a` over `2^shift`.
pub open spec fn widened(a: (int, nat), shift: nat) -> int {
    a.0 * pow2((shift - a.1) as nat)
}

pub open spec fn plus(a: (int, nat), b: (int, nat)) -> (int, nat) {
    let m = common(a, b);
    (round24(widened(a, m) + widened(b, m)), m)
}

pub open spec fn minus(a: (int, nat), b: (int, nat)) -> (int, nat) {
    plus(a, (-b.0, b.1))
}

pub open spec fn times(a: (int, nat), b: (int, nat)) -> (int, nat) {
    (round24(a.0 * b.0), a.1 + b.1)
}

pub open spec fn over(a: (int, nat), b: (int, nat)) -> (int, nat) {
    let m = common(a, b);
    quotient(abs(widened(a, m)), abs(widened(b, m)))
}

pub open spec fn less(a: (int, nat), b: (int, nat)) -> bool {
    let m = common(a, b);
    widened(a, m) < widened(b, m)
}

/// The whole part of a value that is not negative.
pub open spec fn whole(a: (int, nat)) -> nat {
    abs(a.0) / pow2(a.1)
}

fn shifted(n: i128, by: u32) -> (r: i128)
    requires
        -0x1000_0000_0000 <= n <= 0x1000_0000_0000,
        by <= 72,
    ensures
        r == n * pow2(by as nat),
        -0x1000_0000_0000 * 0x100_0000_0000_0000_0000 <= r <= 0x1000_0000_0000
            * 0x100_0000_0000_0000_0000,
{
    let mut r: i128 = n;
    let mut i: u32 = 0;
    proof {
        lemma2_to64();
        assert(n * pow2(0) == n);
        lemma_pow2_72();
    }
    while i < by
        invariant
            i <= by <= 72,
            -0x1000_0000_0000 <= n <= 0x1000_0000_0000,
            r == n * pow2(i as nat),
            pow2(72) == 0x100_0000_0000_0000_0000,
        decreases by - i,
    {
        proof {
            lemma_pow2_unfold((i + 1) as nat);
            if i + 1 < 72 {
                lemma_pow2_strictly_increases((i + 1) as nat, 72);
            }
            let p = pow2(i as nat);
            assert(2 * (n * p) == n * (2 * p)) by (nonlinear_arith);
            lemma_shift_bound(n as int, pow2((i + 1) as nat));
        }
        r = r * 2;
        i += 1;
    }
    proof {
        if by < 72 {
            lemma_pow2_strictly_increases(by as nat, 72);
        }
        lemma_shift_bound(n as int, pow2(by as nat));
    }
    r
}

proof fn lemma_shift_bound(n: int, p: nat)
    by (nonlinear_arith)
    requires
        -0x1000_0000_0000 <= n <= 0x1000_0000_0000,
        p <= 0x100_0000_0000_0000_0000,
    ensures
        -0x1000_0000_0000 * 0x100_0000_0000_0000_0000 <= n * p <= 0x1000_0000_0000
            * 0x100_0000_0000_0000_0000,
{
}

pub proof fn lemma_pow2_72()
    ensures
        pow2(72) == 0x100_0000_0000_0000_0000,
{
    lemma2_to64();
    lemma2_to64_rest();
    lemma_pow2_adds(60, 12);
}

/// Rounds a whole number to 24 significant bits.
fn exec_round24(n: i128) -> (r: i128)
    requires
        -0x100_0000_0000_0000_0000_0000_0000_0000 < n < 0x100_0000_0000_0000_0000_0000_0000_0000,
    ensures
        r == round24(n as int),
        abs(r as int) <= 2 * abs(n as int),
        abs(r as int) * 0x80_0000 <= abs(n as int) * 0x80_0000 + abs(n as int),
        2 * abs(r as int) >= abs(n as int),
        n >= 0 ==> r >= 0,
        abs(n as int) < 0x100_0000 ==> r == n,
{
    let a: u128 = if n < 0 {
        (-n) as u128
    } else {
        n as u128
    };
    let mut unit: u128 = 1;
    let ghost mut k: nat = 0;
    proof {
        lemma2_to64();
    }
    while a >= unit * 0x100_0000
        invariant
            a < 0x100_0000_0000_0000_0000_0000_0000_0000,
            pow2(24) == 0x100_0000,
            unit == pow2(k),
            1 <= unit,
            unit * 0x80_0000 <= a || unit == 1,
            unit < 0x100_0000_0000_0000_0000_0000_0000,
            decimal::excess(a as nat, 1, 24) == k + decimal::excess(a as nat, unit as nat, 24),
        decreases 0x200_0000_0000_0000_0000_0000_0000 - unit,
    {
        unit = unit * 2;
        proof {
            lemma_pow2_unfold(k + 1);
            k = k + 1;
        }
    }
    let q: u128 = decimal::divide_half_even(a, unit);
    proof {
        decimal::lemma_round_bounds(a as nat, unit as nat);
        if unit == 1 {
            decimal::lemma_round_exact(a as nat, 1);
        }
    }
    let m: u128 = q * unit;
    if n < 0 {
        -(m as i128)
    } else {
        m as i128
    }
}

impl Single {
    /// A whole number of at most 24 bits.
    pub fn whole_number(n: i32) -> (r: Single)
        ensures
            r@ == (n as int, 0nat),
    {
        Single { num: n as i128, shift: 0 }
    }

    /// A whole number, rounded to 24 significant bits.
    pub fn rounded(n: u32) -> (r: Single)
        ensures
            r@ == (round24(n as int), 0nat),
            0 <= r.num <= 2 * n,
            2 * r.num >= n,
    {
        Single { num: exec_round24(n as i128), shift: 0 }
    }

    /// `self + other`.
    pub fn plus(self, other: Single) -> (r: Single)
        requires
            self.shift <= 72,
            other.shift <= 72,
            -MAX_NUM <= self.num <= MAX_NUM,
            -MAX_NUM <= other.num <= MAX_NUM,
        ensures
            r@ == plus(self@, other@),
            ({
                let m = common(self@, other@);
                let x = widened(self@, m) + widened(other@, m);
                &&& abs(r.num as int) <= 2 * abs(x)
                &&& 2 * abs(r.num as int) >= abs(x)
                &&& x >= 0 ==> r.num >= 0
            }),
    {
        let m: u32 = if self.shift < other.shift {
            other.shift
        } else {
            self.shift
        };
        let a: i128 = shifted(self.num, m - self.shift);
        let b: i128 = shifted(other.num, m - other.shift);
        Single { num: exec_round24(a + b), shift: m }
    }

    /// `self - other`.
    pub fn minus(self, other: Single) -> (r: Single)
        requires
            self.shift <= 72,
            other.shift <= 72,
            -MAX_NUM <= self.num <= MAX_NUM,
            -MAX_NUM <= other.num <= MAX_NUM,
        ensures
            r@ == minus(self@, other@),
            ({
                let m = common(self@, other@);
                let x = widened(self@, m) - widened(other@, m);
                &&& abs(r.num as int) <= 2 * abs(x)
                &&& 2 * abs(r.num as int) >= abs(x)
                &&& x >= 0 ==> r.num >= 0
            }),
    {
        proof {
            let m = common(self@, other@);
            let p = pow2((m - other.shift) as nat);
            assert((-other.num) * p == -(other.num * p)) by (nonlinear_arith);
        }
        self.plus(Single { num: -other.num, shift: other.shift })
    }

    /// `self * other`.
    pub fn times(self, other: Single) -> (r: Single)
        requires
            self.shift + other.shift <= 72,
            -MAX_NUM <= self.num <= MAX_NUM,
            -MAX_NUM <= other.num <= MAX_NUM,
        ensures
            r@ == times(self@, other@),
            abs(r.num as int) <= 2 * abs(self.num * other.num),
    {
        let a: i128 = self.num;
        let b: i128 = other.num;
        assert(-0x100_0000_0000_0000_0000_0000 <= a * b <= 0x100_0000_0000_0000_0000_0000) by (nonlinear_arith)
            requires
                -0x1000_0000_0000 <= a <= 0x1000_0000_0000,
                -0x1000_0000_0000 <= b <= 0x1000_0000_0000,
        ;
        Single { num: exec_round24(a * b), shift: self.shift + other.shift }
    }

    /// The quotient of two values that are not negative.
    pub fn over(self, other: Single) -> (r: Single)
        requires
            self.shift <= 40,
            other.shift <= 40,
            0 <= self.num <= 0x1000_0000_0000,
            0 < other.num <= 0x1000_0000_0000,
            abs(widened(other@, common(self@, other@))) <= 0x1000_0000_0000,
            abs(widened(self@, common(self@, other@))) < abs(widened(other@, common(self@, other@))) * 0x80_0000,
        ensures
            r@ == over(self@, other@),
            0 <= r.num <= 0x100_0000,
            r.shift <= 68,
            abs(widened(self@, common(self@, other@))) >= abs(
                widened(other@, common(self@, other@)),
            ) ==> r.shift <= 23,
            self.num == 0 ==> r.shift == 0,
    {
        let m: u32 = if self.shift < other.shift {
            other.shift
        } else {
            self.shift
        };
        let n: i128 = shifted(self.num, m - self.shift);
        let d: i128 = shifted(other.num, m - other.shift);
        proof {
            lemma_pow2_pos((m - self.shift) as nat);
            lemma_pow2_pos((m - other.shift) as nat);
            assert(n >= 0) by (nonlinear_arith)
                requires
                    n == self.num * pow2((m - self.shift) as nat),
                    self.num >= 0,
            ;
            assert(self.num == 0 ==> n == 0) by (nonlinear_arith)
                requires
                    n == self.num * pow2((m - self.shift) as nat),
            ;
            assert(d > 0) by (nonlinear_arith)
                requires
                    d == other.num * pow2((m - other.shift) as nat),
                    other.num > 0,
                    pow2((m - other.shift) as nat) > 0,
            ;
        }
        ratio(n as u128, d as u128)
    }

    /// Whether `self` is below `other`.
    pub fn less(self, other: Single) -> (r: bool)
        requires
            self.shift <= 72,
            other.shift <= 72,
            -MAX_NUM <= self.num <= MAX_NUM,
            -MAX_NUM <= other.num <= MAX_NUM,
        ensures
            r == less(self@, other@),
    {
        let m: u32 = if self.shift < other.shift {
            other.shift
        } else {
            self.shift
        };
        shifted(self.num, m - self.shift) < shifted(other.num, m - other.shift)
    }

    /// The whole part of a value that is not negative.
    pub fn whole(self) -> (r: u128)
        requires
            self.shift <= 72,
            0 <= self.num,
        ensures
            r == whole(self@),
    {
        let d: i128 = shifted(1, self.shift);
        proof {
            lemma_pow2_pos(self.shift as nat);
        }
        self.num as u128 / d as u128
    }
}

/// The single-precision quotient `n / d`.
pub fn ratio(n: u128, d: u128) -> (r: Single)
    requires
        0 < d <= 0x1000_0000_0000,
        n < d * 0x80_0000,
    ensures
        r@ == quotient(n as nat, d as nat),
        0 <= r.num <= 0x100_0000,
        r.shift <= 68,
        n > 0 ==> pow2(r.shift as nat) < d * 0x100_0000,
        n == 0 ==> r@ == (0int, 0nat),
        0 < n <= d ==> r.shift >= 23 && r.num <= pow2(r.shift as nat),
        n >= d ==> r.shift <= 23,
{
    let top: u128 = d * 0x80_0000;
    let mut num: u128 = n;
    let mut den: u128 = 1;
    let mut shift: u32 = 0;
    proof {
        lemma2_to64();
        lemma2_to64_rest();
        lemma_pow2_adds(44, 24);
        assert(n as nat * pow2(0) == n);
    }
    if n == 0 {
        proof {
            decimal::lemma_round_bounds(0, d as nat);
        }
        return Single { num: 0, shift: 0 };
    }
    while num < top
        invariant
            0 < d <= 0x1000_0000_0000,
            pow2(23) == 0x80_0000,
            pow2(68) == 0x1000_0000_0000 * 0x100_0000,
            top == d * 0x80_0000,
            n >= 1,
            1 <= num < 2 * top,
            den == pow2(shift as nat),
            1 <= den <= num,
            shift <= 68,
            num == n * pow2(shift as nat),
            n >= d ==> shift <= 23,
            decimal::scale(n as nat, d as nat, 24) == shift + decimal::scale(
                num as nat,
                d as nat,
                24,
            ),
        decreases 2 * top - num,
    {
        proof {
            let p = pow2(shift as nat);
            assert(2 * (n * p) == n * (2 * p)) by (nonlinear_arith);
            lemma_pow2_unfold((shift + 1) as nat);
            if shift >= 68 {
                if shift > 68 {
                    lemma_pow2_strictly_increases(68, shift as nat);
                }
                assert(false);
            }
            if n >= d && shift == 23 {
                assert(n * 0x80_0000 >= d * 0x80_0000) by (nonlinear_arith)
                    requires
                        n >= d,
                ;
            }
        }
        num = num * 2;
        den = den * 2;
        shift = shift + 1;
    }
    let m: u128 = decimal::divide_half_even(num, d);
    proof {
        lemma_quotient_bound(num as nat, d as nat);
        if n <= d {
            lemma_unit_quotient(n as nat, d as nat, shift as nat);
        }
    }
    Single { num: m as i128, shift }
}

/// A quotient of at most one rounds to at most one.
proof fn lemma_unit_quotient(n: nat, d: nat, shift: nat)
    requires
        0 < n <= d,
        n * pow2(shift) >= d * 0x80_0000,
    ensures
        shift >= 23,
        decimal::round_half_even(n * pow2(shift), d) <= pow2(shift),
{
    lemma2_to64();
    let p = pow2(shift);
    assert(p >= 0x80_0000) by (nonlinear_arith)
        requires
            n * p >= d * 0x80_0000,
            0 < n <= d,
    ;
    if shift < 23 {
        lemma_pow2_strictly_increases(shift, 23);
    }
    assert(n * p <= p * d) by (nonlinear_arith)
        requires
            n <= d,
    ;
    decimal::lemma_round_monotone(n * p, p * d, d);
    decimal::lemma_round_exact(p, d);
}

/// A quotient below `2^24` rounds to at most `2^24`.
proof fn lemma_quotient_bound(n: nat, d: nat)
    requires
        d > 0,
        n < d * 0x100_0000,
    ensures
        decimal::round_half_even(n, d) <= 0x100_0000,
{
    decimal::lemma_round_bounds(n, d);
    assert(n / d < 0x100_0000) by (nonlinear_arith)
        requires
            d > 0,
            n < d * 0x100_0000,
    ;
}

/// The single-precision quotient of `n` by `d`, in units of the last of `places` decimals.
pub open spec fn shown(n: nat, d: nat, places: nat) -> nat {
    let q = quotient(abs(round24(n as int)), d);
    decimal::round_half_even(abs(q.0) * decimal::pow10(places), pow2(q.1))
}

/// Appends the single-precision quotient `n / d` with `places` decimals.
pub fn push_quotient(out: &mut String, n: u32, d: u32, places: usize)
    requires
        1000 <= d,
        places <= 9,
    ensures
        final(out)@ == old(out)@ + decimal::fixed_text(
            shown(n as nat, d as nat, places as nat),
            places as nat,
        ),
{
    let a: i128 = exec_round24(n as i128);
    let q: Single = ratio(a as u128, d as u128);
    let den: i128 = shifted(1, q.shift);
    let p: u128 = decimal::power_of_ten(places);
    proof {
        lemma_pow2_pos(q.shift as nat);
        lemma_pow2_72();
        if q.shift < 72 {
            lemma_pow2_strictly_increases(q.shift as nat, 72);
        }
        assert(q.num * p <= 0x100_0000 * 1_000_000_000) by (nonlinear_arith)
            requires
                0 <= q.num <= 0x100_0000,
                p <= 1_000_000_000,
        ;
    }
    let units: u128 = decimal::divide_half_even(q.num as u128 * p, den as u128);
    decimal::push_fixed(out, units, places);
}

/// A whole number of up to 24 bits is its own single-precision value.
pub proof fn law_small_numbers_are_exact(n: int)
    requires
        -0x100_0000 < n < 0x100_0000,
    ensures
        round24(n) == n,
{
    lemma2_to64();
    let m = abs(n);
    assert(decimal::excess(m, 1, 24) == 0);
    assert(pow2(0) == 1);
    assert(m * 1 == m);
    decimal::lemma_round_exact(m, 1);
}

/// Comparing two values over a common denominator compares the numbers that they stand for: for
/// values over the same power of two, their numerators.
pub proof fn law_order_of_values(a: int, b: int, shift: nat)
    ensures
        less((a, shift), (b, shift)) == (a < b),
        less((a, 0), (b, shift)) == (a * pow2(shift) < b),
{
    lemma2_to64();
    assert(pow2(0) == 1);
    assert(a * 1 == a && b * 1 == b);
}

/// A quotient that is a whole number is exact.
pub proof fn law_whole_quotient_is_exact(n: nat, d: nat)
    requires
        n > 0,
        d > 0,
    ensures
        quotient(n * d, d).0 == n * pow2(quotient(n * d, d).1),
{
    let s = decimal::scale(n * d, d, 24);
    let p = pow2(s);
    assert((n * d) * p == (n * p) * d) by (nonlinear_arith);
    decimal::lemma_round_exact(n * p, d);
}

} // verus!
