//! Decimal rendering of binary quotients.
//!
//! A frequency readout such as `"162.425 MHz"` is the decimal rendering of the double-precision
//! quotient of two integers: the quotient is first rounded to a 53-bit significand, and that
//! binary value is then rounded to the places shown. Both roundings go to the nearest value, ties
//! to even. This module states the two steps over integers and computes them exactly.

use vstd::arithmetic::power2::*;
use vstd::prelude::*;

use crate::text;

verus! {

/// `n / d` rounded to the nearest integer, ties to even.
pub open spec fn round_half_even(n: nat, d: nat) -> nat {
    if 2 * (n % d) < d || (2 * (n % d) == d && (n / d) % 2 == 0) {
        n / d
    } else {
        n / d + 1
    }
}

/// The least `s` with `n * 2^s >= d * 2^(bits - 1)`, for a positive `n`.
pub open spec fn scale(n: nat, d: nat, bits: nat) -> nat
    decreases (if n < d * pow2((bits - 1) as nat) { d * pow2((bits - 1) as nat) - n } else { 0 }),
{
    if n == 0 || n >= d * pow2((bits - 1) as nat) {
        0
    } else {
        1 + scale(2 * n, d, bits)
    }
}

/// The least `k` with `n < d * 2^k * 2^bits`, for a positive `d`.
pub open spec fn excess(n: nat, d: nat, bits: nat) -> nat
    decreases (if d * pow2(bits) <= n { n + 1 - d * pow2(bits) } else { 0 }),
{
    if d == 0 || n < d * pow2(bits) {
        0
    } else {
        proof {
            lemma_pow2_pos(bits);
            assert((2 * d) * pow2(bits) > d * pow2(bits)) by (nonlinear_arith)
                requires
                    d > 0,
                    pow2(bits) > 0,
            ;
        }
        1 + excess(n, 2 * d, bits)
    }
}

/// `n / d` rounded to `bits` significant bits, as a numerator over a power of two.
pub open spec fn nearest_binary(n: nat, d: nat, bits: nat) -> (nat, nat) {
    if n < d * pow2(bits) {
        let s = scale(n, d, bits);
        (round_half_even(n * pow2(s), d), pow2(s))
    } else {
        let k = excess(n, d, bits);
        (round_half_even(n, d * pow2(k)) * pow2(k), 1)
    }
}

/// `n` as a double: exact below `2^53`, otherwise rounded to 53 significant bits.
pub open spec fn to_double(n: nat) -> nat {
    let k = excess(n, 1, 53);
    round_half_even(n, pow2(k)) * pow2(k)
}

/// `10^places`.
pub open spec fn pow10(places: nat) -> nat
    decreases places,
{
    if places == 0 {
        1
    } else {
        10 * pow10((places - 1) as nat)
    }
}

/// The double-precision quotient `n / d`, in units of the last of `places` decimals.
pub open spec fn shown(n: nat, d: nat, places: nat) -> nat {
    let q = nearest_binary(to_double(n), d, 53);
    round_half_even(q.0 * pow10(places), q.1)
}

/// A number of units of `10^-places` as text.
pub open spec fn fixed_text(units: nat, places: nat) -> Seq<char> {
    if places == 0 {
        text::dec(units)
    } else {
        text::dec(units / pow10(places)).push('.') + text::dec_fixed(
            units % pow10(places),
            places,
        )
    }
}

/// The double-precision quotient `n / d` with `places` decimals.
pub open spec fn quotient_text(n: nat, d: nat, places: nat) -> Seq<char> {
    fixed_text(shown(n, d, places), places)
}

// ── Exact quotients ─────────────────────────────────────────────────────────

pub proof fn lemma_round_exact(n: nat, d: nat)
    requires
        d > 0,
    ensures
        round_half_even(n * d, d) == n,
{
    vstd::arithmetic::div_mod::lemma_div_multiples_vanish(n as int, d as int);
    vstd::arithmetic::div_mod::lemma_mod_multiples_basic(n as int, d as int);
    vstd::arithmetic::mul::lemma_mul_is_commutative(n as int, d as int);
}

/// A whole number below `2^53` is its own double.
pub proof fn lemma_small_is_double(n: nat)
    requires
        n < pow2(53),
    ensures
        to_double(n) == n,
{
    assert(excess(n, 1, 53) == 0) by {
        if n != 0 {
            assert(n < 1 * pow2(53));
        }
    }
    vstd::arithmetic::power2::lemma2_to64();
    assert(pow2(0) == 1);
    lemma_round_exact(n, 1);
    assert(n * 1 == n);
}

// ── Execution ───────────────────────────────────────────────────────────────

/// `n / d` rounded to the nearest integer, ties to even.
pub fn divide_half_even(n: u128, d: u128) -> (r: u128)
    requires
        0 < d,
        d <= 0x8000_0000_0000_0000_0000_0000_0000,
        n < 0x8000_0000_0000_0000_0000_0000_0000_0000,
    ensures
        r == round_half_even(n as nat, d as nat),
{
    let q: u128 = n / d;
    let r: u128 = n % d;
    assert(q <= n) by (nonlinear_arith)
        requires
            q == n / d,
            d > 0,
    ;
    if 2 * r < d || (2 * r == d && q % 2 == 0) {
        q
    } else {
        q + 1
    }
}

/// `10^places`.
pub fn power_of_ten(places: usize) -> (r: u128)
    requires
        places <= 9,
    ensures
        r == pow10(places as nat),
        1 <= r <= 1_000_000_000,
{
    proof {
        reveal_with_fuel(pow10, 10);
    }
    let mut r: u128 = 1;
    let mut i: usize = 0;
    while i < places
        invariant
            i <= places <= 9,
            r == pow10(i as nat),
            pow10(0) == 1,
            pow10(1) == 10,
            pow10(2) == 100,
            pow10(3) == 1_000,
            pow10(4) == 10_000,
            pow10(5) == 100_000,
            pow10(6) == 1_000_000,
            pow10(7) == 10_000_000,
            pow10(8) == 100_000_000,
            pow10(9) == 1_000_000_000,
        decreases places - i,
    {
        r = r * 10;
        i += 1;
    }
    r
}

/// `n` rounded to the nearest double.
pub fn nearest_double(n: u128) -> (r: u128)
    requires
        n < 0x100_0000_0000_0000_0000_0000_0000_0000,
    ensures
        r == to_double(n as nat),
        r <= 2 * n,
        2 * r >= n,
        n < 0x20_0000_0000_0000 ==> r == n,
        n <= 0xffff_ffff_ffff_ffff ==> r <= n + 0x1000,
{
    let mut unit: u128 = 1;
    let ghost mut k: nat = 0;
    proof {
        lemma2_to64();
        lemma2_to64_rest();
    }
    while n >= unit * 0x20_0000_0000_0000
        invariant
            n < 0x100_0000_0000_0000_0000_0000_0000_0000,
            pow2(53) == 0x20_0000_0000_0000,
            unit == pow2(k),
            1 <= unit,
            unit * 0x10_0000_0000_0000 <= n || unit == 1,
            unit < 0x1000_0000_0000_0000_0000,
            excess(n as nat, 1, 53) == k + excess(n as nat, unit as nat, 53),
        decreases 0x2000_0000_0000_0000_0000 - unit,
    {
        unit = unit * 2;
        proof {
            lemma_pow2_unfold(k + 1);
            k = k + 1;
        }
    }
    let q: u128 = divide_half_even(n, unit);
    proof {
        lemma_round_bounds(n as nat, unit as nat);
        assert(1 * pow2(k) == unit);
        if unit == 1 {
            lemma_round_exact(n as nat, 1);
        }
    }
    q * unit
}

/// `n / d` as a double, in units of the last of `places` decimals.
pub fn quotient_units(n: u64, d: u64, places: usize) -> (r: u128)
    requires
        1 <= d <= 0x100_0000_0000,
        places <= 9,
    ensures
        r == shown(n as nat, d as nat, places as nat),
{
    let a: u128 = nearest_double(n as u128);
    let top: u128 = d as u128 * 0x10_0000_0000_0000;
    let mut num: u128 = a;
    let mut den: u128 = 1;
    let ghost mut s: nat = 0;
    proof {
        lemma2_to64();
        lemma2_to64_rest();
    }
    let p: u128 = power_of_ten(places);
    if a == 0 {
        proof {
            lemma_round_bounds(0, d as nat);
            lemma_round_bounds(0, 1);
            assert(0 * pow2(0) == 0);
            assert(0 * pow10(places as nat) == 0);
        }
        return 0;
    }
    if a >= 2 * top {
        return wide_quotient_units(a, d as u128, p, Ghost(places as nat));
    }
    assert(a * pow2(0) == a);
    while num < top
        invariant
            1 <= d <= 0x100_0000_0000,
            pow2(52) == 0x10_0000_0000_0000,
            top == d * 0x10_0000_0000_0000,
            1 <= a,
            num >= 1,
            num < 2 * top,
            den == pow2(s),
            1 <= den <= num,
            num == a * pow2(s),
            scale(a as nat, d as nat, 53) == s + scale(num as nat, d as nat, 53),
        decreases 2 * top - num,
    {
        assert(2 * (a * pow2(s)) == a * (2 * pow2(s))) by (nonlinear_arith);
        num = num * 2;
        den = den * 2;
        proof {
            lemma_pow2_unfold(s + 1);
            s = s + 1;
        }
    }
    let m: u128 = divide_half_even(num, d as u128);
    assert(m <= 0x20_0000_0000_0001) by {
        lemma_round_bounds(num as nat, d as nat);
        assert(m <= 0x20_0000_0000_0001) by (nonlinear_arith)
            requires
                m >= 1 ==> (m - 1) * d <= num,
                num < 2 * (d * 0x10_0000_0000_0000),
                d >= 1,
        ;
    }
    assert(m * p <= 0x20_0000_0000_0001 * 1_000_000_000) by (nonlinear_arith)
        requires
            m <= 0x20_0000_0000_0001,
            p <= 1_000_000_000,
    ;
    divide_half_even(m * p, den)
}

/// A quotient of at least `2^53`, in units of `1 / p`.
fn wide_quotient_units(a: u128, d: u128, p: u128, Ghost(places): Ghost<nat>) -> (r: u128)
    requires
        1 <= d <= 0x100_0000_0000,
        d * 0x20_0000_0000_0000 <= a <= 0x1_0000_0000_0000_1000,
        p == pow10(places),
        1 <= p <= 1_000_000_000,
    ensures
        r == round_half_even(
            nearest_binary(a as nat, d as nat, 53).0 * pow10(places),
            nearest_binary(a as nat, d as nat, 53).1,
        ),
{
    let mut unit: u128 = 1;
    let mut e: u128 = d;
    let ghost mut k: nat = 0;
    proof {
        lemma2_to64();
        lemma2_to64_rest();
    }
    while a >= e * 0x20_0000_0000_0000
        invariant
            d >= 1,
            a <= 0x1_0000_0000_0000_1000,
            pow2(53) == 0x20_0000_0000_0000,
            unit == pow2(k),
            e == d * pow2(k),
            1 <= unit <= e,
            e <= 0x1000_0000,
            e == d || e * 0x10_0000_0000_0000 <= a,
            e <= a,
            excess(a as nat, d as nat, 53) == k + excess(a as nat, e as nat, 53),
        decreases 0x2000_0000 - e,
    {
        proof {
            lemma_pow2_unfold(k + 1);
            assert(d * (2 * pow2(k)) == 2 * (d * pow2(k))) by (nonlinear_arith);
            k = k + 1;
        }
        unit = unit * 2;
        e = e * 2;
    }
    let q: u128 = divide_half_even(a, e);
    proof {
        lemma_round_bounds(a as nat, e as nat);
        assert(q * unit <= q * e) by (nonlinear_arith)
            requires
                unit <= e,
        ;
        let m = (q * unit) as nat;
        assert(m * p <= 0x2_0000_0000_0000_2000 * 1_000_000_000) by (nonlinear_arith)
            requires
                m <= 0x2_0000_0000_0000_2000,
                p <= 1_000_000_000,
        ;
        lemma_round_exact(m * pow10(places), 1);
        assert((m * pow10(places)) * 1 == m * pow10(places));
    }
    q * unit * p
}

pub proof fn lemma_round_bounds(n: nat, d: nat)
    requires
        d >= 1,
    ensures
        round_half_even(n, d) * d <= n + d,
        round_half_even(n, d) * d + d >= n,
        round_half_even(n, d) * d <= 2 * n,
        round_half_even(n, d) >= 1 ==> (round_half_even(n, d) - 1) * d <= n,
        n == 0 ==> round_half_even(n, d) == 0,
        n >= d ==> round_half_even(n, d) >= 1,
        round_half_even(n, d) <= n / d + 1,
{
    vstd::arithmetic::div_mod::lemma_fundamental_div_mod(n as int, d as int);
    let q = n / d;
    let r = n % d;
    assert((q + 1) * d == q * d + d) by (nonlinear_arith);
    assert(d * q == q * d) by (nonlinear_arith);
    assert(q >= 1 ==> (q - 1) * d == q * d - d) by (nonlinear_arith);
    if n == 0 {
        vstd::arithmetic::div_mod::lemma_div_of0(d as int);
        vstd::arithmetic::div_mod::lemma_small_mod(0, d);
    }
    if n >= d {
        assert(q >= 1) by (nonlinear_arith)
            requires
                n == q * d + r,
                r < d,
                n >= d,
        ;
    }
}

/// Rounding moves a quotient by at most one half.
pub proof fn lemma_round_tight(n: nat, d: nat)
    requires
        d > 0,
    ensures
        2 * (round_half_even(n, d) * d) <= 2 * n + d,
        2 * n <= 2 * (round_half_even(n, d) * d) + d,
{
    vstd::arithmetic::div_mod::lemma_fundamental_div_mod(n as int, d as int);
    let q = n / d;
    assert((q + 1) * d == q * d + d) by (nonlinear_arith);
    assert(d * q == q * d) by (nonlinear_arith);
}

/// A quotient less than one half away from a whole number rounds to it.
pub proof fn lemma_round_near(n: nat, d: nat, whole: nat)
    requires
        2 * n < 2 * (whole * d) + d,
        2 * (whole * d) < 2 * n + d,
    ensures
        round_half_even(n, d) == whole,
{
    lemma_round_tight(n, d);
    let r = round_half_even(n, d);
    assert(r == whole) by (nonlinear_arith)
        requires
            2 * (r * d) <= 2 * n + d,
            2 * n <= 2 * (r * d) + d,
            2 * n < 2 * (whole * d) + d,
            2 * (whole * d) < 2 * n + d,
            d > 0,
    ;
}

/// Rounding keeps the order of numerators.
pub proof fn lemma_round_monotone(a: nat, b: nat, d: nat)
    requires
        d > 0,
        a <= b,
    ensures
        round_half_even(a, d) <= round_half_even(b, d),
{
    vstd::arithmetic::div_mod::lemma_div_is_ordered(a as int, b as int, d as int);
    vstd::arithmetic::div_mod::lemma_fundamental_div_mod(a as int, d as int);
    vstd::arithmetic::div_mod::lemma_fundamental_div_mod(b as int, d as int);
    if a / d == b / d {
        assert(a % d <= b % d);
    }
}

/// Appends `n / d` as a double with `places` decimals.
pub fn push_quotient(out: &mut String, n: u64, d: u64, places: usize)
    requires
        1 <= d <= 0x100_0000_0000,
        places <= 9,
    ensures
        final(out)@ == old(out)@ + quotient_text(n as nat, d as nat, places as nat),
{
    let units: u128 = quotient_units(n, d, places);
    push_fixed(out, units, places);
}

/// Appends a number of units of `10^-places`.
pub fn push_fixed(out: &mut String, units: u128, places: usize)
    requires
        places <= 9,
    ensures
        final(out)@ == old(out)@ + fixed_text(units as nat, places as nat),
{
    let ghost start = out@;
    let p: u128 = power_of_ten(places);
    if places == 0 {
        text::push_dec_wide(out, units);
    } else {
        text::push_dec_wide(out, units / p);
        out.push('.');
        text::push_dec_fixed(out, (units % p) as u64, places);
        assert(out@ =~= start + fixed_text(units as nat, places as nat));
    }
}

/// A quotient that is a whole number is shown as that number, with zeros behind the point.
pub proof fn law_whole_quotient(q: nat, d: nat, places: nat)
    requires
        0 < q,
        0 < d,
        q * d < 0x20_0000_0000_0000,
    ensures
        shown(q * d, d, places) == q * pow10(places),
        places == 0 ==> quotient_text(q * d, d, places) == text::dec(q),
        places > 0 ==> quotient_text(q * d, d, places) == text::dec(q).push('.')
            + text::dec_fixed(0, places),
{
    lemma2_to64();
    lemma2_to64_rest();
    let n = q * d;
    lemma_small_is_double(n);
    assert(n < d * pow2(53)) by (nonlinear_arith)
        requires
            n < 0x20_0000_0000_0000,
            pow2(53) == 0x20_0000_0000_0000,
            d >= 1,
    ;
    let s = scale(n, d, 53);
    let p = pow2(s);
    lemma_pow2_pos(s);
    assert(n * p == (q * p) * d) by (nonlinear_arith)
        requires
            n == q * d,
    ;
    lemma_round_exact(q * p, d);
    let t = pow10(places);
    assert((q * p) * t == (q * t) * p) by (nonlinear_arith);
    lemma_round_exact(q * t, p);
    lemma_pow10_positive(places);
    vstd::arithmetic::div_mod::lemma_div_multiples_vanish(q as int, t as int);
    vstd::arithmetic::div_mod::lemma_mod_multiples_basic(q as int, t as int);
    assert(q * t == t * q) by (nonlinear_arith);
    assert(pow10(0) == 1);
}

proof fn lemma_pow10_positive(places: nat)
    ensures
        pow10(places) > 0,
    decreases places,
{
    if places > 0 {
        lemma_pow10_positive((places - 1) as nat);
    }
}

/// Rounding goes to the nearest whole number, and to the even one when two are equally near.
pub proof fn law_round_half_even(n: nat, d: nat, whole: nat)
    requires
        d > 0,
    ensures
        ({
            let r = round_half_even(n, d);
            &&& 2 * (r * d) <= 2 * n + d
            &&& 2 * n <= 2 * (r * d) + d
            &&& 2 * (r * d) == 2 * n + d || 2 * n == 2 * (r * d) + d ==> r % 2 == 0
        }),
        round_half_even(whole * d, d) == whole,
{
    lemma_round_tight(n, d);
    lemma_round_exact(whole, d);
    let q = n / d;
    let rem = n % d;
    vstd::arithmetic::div_mod::lemma_fundamental_div_mod(n as int, d as int);
    assert(d * q == q * d) by (nonlinear_arith);
    assert((q + 1) * d == q * d + d) by (nonlinear_arith);
}

/// The decimals shown of a quotient are the nearest to it: off by no more than half a unit of the last
/// place and one part in `2^53` of the quotient, which is what the binary value is off.
pub proof fn law_shown_quotient_is_nearest(n: nat, d: nat, places: nat)
    requires
        0 < n < 0x20_0000_0000_0000,
        0 < d,
    ensures
        ({
            let shown = shown(n, d, places) * d;
            let exact = n * pow10(places);
            let slack = 0x10_0000_0000_0000 * d + exact;
            &&& 0x20_0000_0000_0000 * shown <= 0x20_0000_0000_0000 * exact + slack
            &&& 0x20_0000_0000_0000 * exact <= 0x20_0000_0000_0000 * shown + slack
        }),
{
    lemma2_to64();
    lemma2_to64_rest();
    lemma_small_is_double(n);
    assert(n < d * pow2(53)) by (nonlinear_arith)
        requires
            n < 0x20_0000_0000_0000,
            pow2(53) == 0x20_0000_0000_0000,
            d >= 1,
    ;
    let s = scale(n, d, 53);
    let b = pow2(s) as int;
    lemma_pow2_pos(s);
    crate::number::lemma_scale_reaches(n, d, 53);
    let a = round_half_even(n * pow2(s), d) as int;
    lemma_round_tight(n * pow2(s), d);
    let t = pow10(places) as int;
    lemma_round_tight(round_half_even(n * pow2(s), d) * pow10(places), pow2(s));
    let u = shown(n, d, places) as int;
    lemma_two_roundings(n as int, d as int, t, a, b, u);
}

/// The errors of two roundings, over a common denominator.
proof fn lemma_two_roundings(n: int, d: int, t: int, a: int, b: int, u: int)
    requires
        0 < n,
        0 < d,
        0 <= t,
        0 < b,
        2 * (a * d) <= 2 * (n * b) + d,
        2 * (n * b) <= 2 * (a * d) + d,
        2 * (u * b) <= 2 * (a * t) + b,
        2 * (a * t) <= 2 * (u * b) + b,
        n * b >= d * 0x10_0000_0000_0000,
    ensures
        0x20_0000_0000_0000 * (u * d) <= 0x20_0000_0000_0000 * (n * t) + (0x10_0000_0000_0000 * d
            + n * t),
        0x20_0000_0000_0000 * (n * t) <= 0x20_0000_0000_0000 * (u * d) + (0x10_0000_0000_0000 * d
            + n * t),
{
    let x = u * d;
    let y = n * t;
    assert(2 * (x * b) <= 2 * ((a * d) * t) + b * d && 2 * ((a * d) * t) <= 2 * (x * b) + b * d)
        by (nonlinear_arith)
        requires
            x == u * d,
            0 < d,
            2 * (u * b) <= 2 * (a * t) + b,
            2 * (a * t) <= 2 * (u * b) + b,
    ;
    assert(2 * ((a * d) * t) <= 2 * (y * b) + d * t && 2 * (y * b) <= 2 * ((a * d) * t) + d * t)
        by (nonlinear_arith)
        requires
            y == n * t,
            0 <= t,
            2 * (a * d) <= 2 * (n * b) + d,
            2 * (n * b) <= 2 * (a * d) + d,
    ;
    assert(0x10_0000_0000_0000 * (d * t) <= y * b) by (nonlinear_arith)
        requires
            y == n * t,
            0 <= t,
            n * b >= d * 0x10_0000_0000_0000,
    ;
    let xb = x * b;
    let yb = y * b;
    let bd = b * d;
    assert(0x20_0000_0000_0000 * xb <= 0x20_0000_0000_0000 * yb + yb + 0x10_0000_0000_0000 * bd);
    assert(0x20_0000_0000_0000 * yb <= 0x20_0000_0000_0000 * xb + yb + 0x10_0000_0000_0000 * bd);
    assert(0x20_0000_0000_0000 * x <= 0x20_0000_0000_0000 * y + y + 0x10_0000_0000_0000 * d)
        by (nonlinear_arith)
        requires
            0 < b,
            0x20_0000_0000_0000 * xb <= 0x20_0000_0000_0000 * yb + yb + 0x10_0000_0000_0000 * bd,
            xb == x * b,
            yb == y * b,
            bd == b * d,
    ;
    assert(0x20_0000_0000_0000 * y <= 0x20_0000_0000_0000 * x + y + 0x10_0000_0000_0000 * d)
        by (nonlinear_arith)
        requires
            0 < b,
            0x20_0000_0000_0000 * yb <= 0x20_0000_0000_0000 * xb + yb + 0x10_0000_0000_0000 * bd,
            xb == x * b,
            yb == y * b,
            bd == b * d,
    ;
}

} // verus!
