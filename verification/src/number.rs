//! Reading a typed decimal number as a double-precision value.
//!
//! A literal such as `162.425` or `1.5e3` is read exactly, rounded to a 53-bit significand,
//! multiplied by a whole unit factor with a second rounding, and finally rounded to whole hertz,
//! halves up. Magnitudes beyond the double range end at the same result (the largest or the
//! smallest frequency), so the exponent range needs no separate treatment.

use vstd::arithmetic::power2::*;
use vstd::prelude::*;

use crate::decimal;
use crate::text;

verus! {

/// What a floating-point literal denotes.
pub enum Literal {
    NotANumber,
    Infinite { negative: bool },
    /// `mantissa * 10^exponent`, negated when `negative`.
    Finite { negative: bool, mantissa: nat, exponent: int },
}

/// Index of the first `c` in `s`; the length of `s` when there is none.
pub open spec fn find(s: Seq<char>, c: char) -> nat
    decreases s.len(),
{
    if s.len() == 0 || s[0] == c {
        0
    } else {
        1 + find(s.skip(1), c)
    }
}

pub open spec fn has_sign(s: Seq<char>) -> bool {
    s.len() > 0 && (s[0] == '-' || s[0] == '+')
}

pub open spec fn is_negative(s: Seq<char>) -> bool {
    s.len() > 0 && s[0] == '-'
}

pub open spec fn unsigned_part(s: Seq<char>) -> Seq<char> {
    if has_sign(s) {
        s.skip(1)
    } else {
        s
    }
}

/// The digits before the first point.
pub open spec fn whole_digits(s: Seq<char>) -> Seq<char> {
    s.take(find(s, '.') as int)
}

/// The digits after the first point.
pub open spec fn fraction_digits(s: Seq<char>) -> Seq<char> {
    if find(s, '.') < s.len() {
        s.skip(find(s, '.') as int + 1)
    } else {
        Seq::empty()
    }
}

/// A run of digits with at most one point, and at least one digit.
pub open spec fn is_plain_decimal(s: Seq<char>) -> bool {
    &&& text::all_digits(whole_digits(s))
    &&& text::all_digits(fraction_digits(s))
    &&& whole_digits(s).len() + fraction_digits(s).len() > 0
}

/// Digits with an optional sign in front.
pub open spec fn is_exponent(s: Seq<char>) -> bool {
    text::all_digits(unsigned_part(s)) && unsigned_part(s).len() > 0
}

pub open spec fn exponent_value(s: Seq<char>) -> int {
    if is_negative(s) {
        -(text::dec_value(unsigned_part(s)) as int)
    } else {
        text::dec_value(unsigned_part(s)) as int
    }
}

/// The part of an unsigned literal before its exponent mark.
pub open spec fn mantissa_part(s: Seq<char>) -> Seq<char> {
    s.take(find(s, 'e') as int)
}

pub open spec fn has_exponent(s: Seq<char>) -> bool {
    find(s, 'e') < s.len()
}

pub open spec fn exponent_part(s: Seq<char>) -> Seq<char> {
    s.skip(find(s, 'e') as int + 1)
}

pub open spec fn is_number(s: Seq<char>) -> bool {
    is_plain_decimal(mantissa_part(s)) && (has_exponent(s) ==> is_exponent(exponent_part(s)))
}

/// What the lower-case text `s` denotes as a floating-point literal, if it is one: an optional
/// sign, then `inf`, `infinity`, `nan`, or digits with an optional point and exponent.
pub open spec fn literal_lower(s: Seq<char>) -> Option<Literal> {
    let body = unsigned_part(s);
    let negative = is_negative(s);
    if is_number(body) {
        let m = mantissa_part(body);
        let e = if has_exponent(body) {
            exponent_value(exponent_part(body))
        } else {
            0
        };
        Some(
            Literal::Finite {
                negative,
                mantissa: text::dec_value(whole_digits(m) + fraction_digits(m)),
                exponent: e - fraction_digits(m).len(),
            },
        )
    } else if body == "inf"@ || body == "infinity"@ {
        Some(Literal::Infinite { negative })
    } else if body == "nan"@ {
        Some(Literal::NotANumber)
    } else {
        None
    }
}

/// What `s` denotes as a floating-point literal; letters count in either case.
pub open spec fn literal(s: Seq<char>) -> Option<Literal> {
    literal_lower(text::ascii_lower(s))
}

/// `n / d` rounded to the nearest integer, halves up.
pub open spec fn round_half_up(n: nat, d: nat) -> nat {
    (2 * n + d) / (2 * d)
}

pub open spec fn capped(n: nat) -> nat {
    if n > u64::MAX {
        u64::MAX as nat
    } else {
        n
    }
}

/// The quotient `n / d` as a double, times `factor` as a double, rounded to an integer.
pub open spec fn scaled_quotient(n: nat, d: nat, factor: nat) -> nat {
    let x = decimal::nearest_binary(n, d, 53);
    capped(round_half_up(decimal::to_double(x.0 * factor), x.1))
}

/// `mantissa * 10^exponent` as a quotient.
pub open spec fn literal_quotient(mantissa: nat, exponent: int) -> (nat, nat) {
    if exponent >= 0 {
        (mantissa * decimal::pow10(exponent as nat), 1)
    } else {
        (mantissa, decimal::pow10((-exponent) as nat))
    }
}

/// A literal times `factor`, rounded to whole units: never negative, capped at the largest `u64`.
pub open spec fn scaled(l: Literal, factor: nat) -> nat {
    match l {
        Literal::NotANumber => 0,
        Literal::Infinite { negative } => if negative {
            0
        } else {
            u64::MAX as nat
        },
        Literal::Finite { negative, mantissa, exponent } => if negative {
            0
        } else {
            let q = literal_quotient(mantissa, exponent);
            scaled_quotient(q.0, q.1, factor)
        },
    }
}

// ── Bounds on the roundings ─────────────────────────────────────────────────

pub proof fn lemma_scale_reaches(n: nat, d: nat, bits: nat)
    requires
        n > 0,
    ensures
        n * pow2(decimal::scale(n, d, bits)) >= d * pow2((bits - 1) as nat),
    decreases
            (if n < d * pow2((bits - 1) as nat) {
                d * pow2((bits - 1) as nat) - n
            } else {
                0
            }),
{
    lemma2_to64();
    if n < d * pow2((bits - 1) as nat) {
        lemma_scale_reaches(2 * n, d, bits);
        let s = decimal::scale(2 * n, d, bits);
        lemma_pow2_unfold(s + 1);
        assert((2 * n) * pow2(s) == n * (2 * pow2(s))) by (nonlinear_arith);
    } else {
        assert(n * pow2(0) == n);
    }
}

pub proof fn lemma_excess_tight(n: nat, d: nat)
    requires
        d > 0,
        n >= d * pow2(52),
    ensures
        n >= (d * pow2(decimal::excess(n, d, 53))) * pow2(52),
    decreases (if d * pow2(53) <= n { n + 1 - d * pow2(53) } else { 0 }),
{
    lemma2_to64();
    lemma2_to64_rest();
    if n >= d * pow2(53) {
        assert((2 * d) * pow2(52) == d * pow2(53)) by (nonlinear_arith)
            requires
                pow2(53) == 2 * pow2(52),
        ;
        assert((2 * d) * pow2(53) > d * pow2(53)) by (nonlinear_arith)
            requires
                d > 0,
                pow2(53) > 0,
        ;
        lemma_excess_tight(n, 2 * d);
        let k = decimal::excess(n, 2 * d, 53);
        lemma_pow2_unfold(k + 1);
        assert((2 * d) * pow2(k) == d * (2 * pow2(k))) by (nonlinear_arith);
    } else {
        assert(d * pow2(0) == d);
    }
}

/// Rounding to a double keeps at least half of a quotient and at most doubles it.
proof fn lemma_binary_bounds(n: nat, d: nat)
    requires
        d > 0,
    ensures
        ({
            let x = decimal::nearest_binary(n, d, 53);
            &&& x.1 > 0
            &&& x.0 * d <= 2 * (n * x.1)
            &&& 2 * (x.0 * d) >= n * x.1
        }),
{
    lemma2_to64();
    lemma2_to64_rest();
    if n < d * pow2(53) {
        let s = decimal::scale(n, d, 53);
        lemma_pow2_pos(s);
        let big = n * pow2(s);
        decimal::lemma_round_bounds(big, d);
        if n > 0 {
            lemma_scale_reaches(n, d, 53);
            assert(d * pow2(52) >= 2 * d) by (nonlinear_arith)
                requires
                    pow2(52) >= 2,
            ;
        } else {
            assert(0 * pow2(s) == 0);
        }
    } else {
        let k = decimal::excess(n, d, 53);
        lemma_pow2_pos(k);
        assert(d * pow2(53) >= d * pow2(52)) by (nonlinear_arith)
            requires
                pow2(53) >= pow2(52),
        ;
        lemma_excess_tight(n, d);
        let e = d * pow2(k);
        assert(e > 0) by (nonlinear_arith)
            requires
                e == d * pow2(k),
                d > 0,
                pow2(k) > 0,
        ;
        decimal::lemma_round_bounds(n, e);
        assert(e * pow2(52) >= 2 * e) by (nonlinear_arith)
            requires
                pow2(52) >= 2,
        ;
        let r = decimal::round_half_even(n, e);
        assert((r * pow2(k)) * d == r * e) by (nonlinear_arith)
            requires
                e == d * pow2(k),
        ;
        assert(n * 1 == n);
    }
}

proof fn lemma_double_bounds(n: nat)
    ensures
        decimal::to_double(n) <= 2 * n,
        2 * decimal::to_double(n) >= n,
{
    lemma2_to64();
    lemma2_to64_rest();
    let k = decimal::excess(n, 1, 53);
    lemma_pow2_pos(k);
    assert(1 * pow2(k) == pow2(k));
    if n < 1 * pow2(53) {
        decimal::lemma_small_is_double(n);
    } else {
        lemma_excess_tight(n, 1);
        decimal::lemma_round_bounds(n, pow2(k));
        assert(pow2(k) * pow2(52) >= 2 * pow2(k)) by (nonlinear_arith)
            requires
                pow2(52) >= 2,
        ;
    }
}

/// A double differs from the whole number it stands for by at most one part in `2^53`.
pub proof fn lemma_double_tight(n: nat)
    ensures
        0x20_0000_0000_0000 * decimal::to_double(n) <= 0x20_0000_0000_0000 * n + n,
        0x20_0000_0000_0000 * n <= 0x20_0000_0000_0000 * decimal::to_double(n) + n,
{
    lemma2_to64();
    lemma2_to64_rest();
    let k = decimal::excess(n, 1, 53);
    lemma_pow2_pos(k);
    assert(1 * pow2(k) == pow2(k));
    if n < 1 * pow2(53) {
        decimal::lemma_small_is_double(n);
    } else {
        lemma_excess_tight(n, 1);
        decimal::lemma_round_tight(n, pow2(k));
    }
}

/// A quotient below `2^-68` rounds to nothing.
proof fn lemma_tiny(n: nat, d: nat, factor: nat)
    requires
        n * 0x10_0000_0000_0000_0000 < d,
        factor <= 1_000_000_000,
    ensures
        scaled_quotient(n, d, factor) == 0,
{
    lemma_binary_bounds(n, d);
    let x = decimal::nearest_binary(n, d, 53);
    let y = decimal::to_double(x.0 * factor);
    lemma_double_bounds(x.0 * factor);
    assert(x.0 * 0x10_0000_0000_0000_0000 <= 2 * x.1) by (nonlinear_arith)
        requires
            x.0 * d <= 2 * (n * x.1),
            n * 0x10_0000_0000_0000_0000 < d,
            d > 0,
            x.1 > 0,
    ;
    assert(x.0 * factor <= x.0 * 1_000_000_000) by (nonlinear_arith)
        requires
            factor <= 1_000_000_000,
    ;
    assert(2 * y + x.1 < 2 * x.1);
    vstd::arithmetic::div_mod::lemma_basic_div((2 * y + x.1) as int, (2 * x.1) as int);
}

/// A quotient of `10^24` or more ends at the cap.
proof fn lemma_huge(n: nat, d: nat, factor: nat)
    requires
        d > 0,
        n >= d * 1_000_000_000_000_000_000_000_000,
        factor >= 1,
    ensures
        scaled_quotient(n, d, factor) == u64::MAX,
{
    lemma_binary_bounds(n, d);
    let x = decimal::nearest_binary(n, d, 53);
    let y = decimal::to_double(x.0 * factor);
    lemma_double_bounds(x.0 * factor);
    assert(2 * x.0 >= 1_000_000_000_000_000_000_000_000 * x.1) by (nonlinear_arith)
        requires
            2 * (x.0 * d) >= n * x.1,
            n >= d * 1_000_000_000_000_000_000_000_000,
            d > 0,
            x.1 > 0,
    ;
    assert(x.0 * factor >= x.0) by (nonlinear_arith)
        requires
            factor >= 1,
    ;
    assert(2 * y + x.1 >= (2 * x.1) * 0x1_0000_0000_0000_0000);
    vstd::arithmetic::div_mod::lemma_div_is_ordered(
        ((2 * x.1) * 0x1_0000_0000_0000_0000) as int,
        (2 * y + x.1) as int,
        (2 * x.1) as int,
    );
    vstd::arithmetic::div_mod::lemma_div_multiples_vanish(
        0x1_0000_0000_0000_0000,
        (2 * x.1) as int,
    );
}

// ── Decimal digit vectors ───────────────────────────────────────────────────

spec fn valid_digits(s: Seq<u8>) -> bool {
    forall|i: int| 0 <= i < s.len() ==> #[trigger] s[i] <= 9
}

/// The number that a digit vector denotes, most significant digit first.
spec fn val(s: Seq<u8>) -> nat
    decreases s.len(),
{
    if s.len() == 0 {
        0
    } else {
        (s[0] as nat) * decimal::pow10((s.len() - 1) as nat) + val(s.skip(1))
    }
}

proof fn lemma_pow10_adds(a: nat, b: nat)
    ensures
        decimal::pow10(a + b) == decimal::pow10(a) * decimal::pow10(b),
        decimal::pow10(a) > 0,
    decreases a,
{
    if a == 0 {
        assert(1 * decimal::pow10(b) == decimal::pow10(b));
    } else {
        lemma_pow10_adds((a - 1) as nat, b);
        let p = decimal::pow10((a - 1) as nat);
        let q = decimal::pow10(b);
        assert((10 * p) * q == 10 * (p * q)) by (nonlinear_arith);
        assert((a + b - 1) as nat == (a - 1) as nat + b);
    }
}

proof fn lemma_val_bounds(s: Seq<u8>)
    requires
        valid_digits(s),
    ensures
        val(s) < decimal::pow10(s.len()),
        s.len() > 0 && s[0] >= 1 ==> val(s) >= decimal::pow10((s.len() - 1) as nat),
    decreases s.len(),
{
    if s.len() > 0 {
        lemma_val_bounds(s.skip(1));
        let p = decimal::pow10((s.len() - 1) as nat);
        assert(s[0] * p <= 9 * p) by (nonlinear_arith)
            requires
                s[0] <= 9,
        ;
        assert(s[0] >= 1 ==> s[0] * p >= p) by (nonlinear_arith);
    }
}

/// A digit vector splits at any place.
proof fn lemma_val_split(a: Seq<u8>, b: Seq<u8>)
    ensures
        val(a + b) == val(a) * decimal::pow10(b.len()) + val(b),
    decreases a.len(),
{
    if a.len() == 0 {
        assert(a + b =~= b);
        assert(0 * decimal::pow10(b.len()) == 0);
    } else {
        lemma_val_split(a.skip(1), b);
        assert((a + b).skip(1) =~= a.skip(1) + b);
        lemma_pow10_adds((a.len() - 1) as nat, b.len());
        let p = decimal::pow10((a.len() - 1) as nat);
        let q = decimal::pow10(b.len());
        assert((a + b).len() - 1 == (a.len() - 1) + b.len());
        assert(a[0] * (p * q) + val(a.skip(1)) * q == (a[0] * p + val(a.skip(1))) * q)
            by (nonlinear_arith);
    }
}

proof fn lemma_val_push(a: Seq<u8>, d: u8)
    ensures
        val(a.push(d)) == val(a) * 10 + d,
{
    assert(a.push(d) =~= a + seq![d]);
    lemma_val_split(a, seq![d]);
    reveal_with_fuel(val, 2);
    reveal_with_fuel(decimal::pow10, 2);
    assert(seq![d].skip(1) =~= Seq::<u8>::empty());
    assert(decimal::pow10(0) == 1 && decimal::pow10(1) == 10);
    assert(seq![d].len() == 1 && seq![d][0] == d);
    let one = decimal::pow10(0);
    assert((d as nat) * one == d) by (nonlinear_arith)
        requires
            one == 1,
    ;
    assert(val(seq![d]) == d);
}

proof fn lemma_val_zero(s: Seq<u8>)
    ensures
        (val(s) == 0) == (forall|i: int| 0 <= i < s.len() ==> s[i] == 0),
    decreases s.len(),
{
    if s.len() > 0 {
        lemma_val_zero(s.skip(1));
        lemma_pow10_adds((s.len() - 1) as nat, 0);
        let p = decimal::pow10((s.len() - 1) as nat);
        assert((s[0] * p == 0) == (s[0] == 0)) by (nonlinear_arith)
            requires
                p > 0,
        ;
        if s[0] == 0 && val(s.skip(1)) == 0 {
            assert forall|i: int| 0 <= i < s.len() implies s[i] == 0 by {
                if i > 0 {
                    assert(s[i] == s.skip(1)[i - 1]);
                }
            }
        }
        if forall|i: int| 0 <= i < s.len() ==> s[i] == 0 {
            assert forall|i: int| 0 <= i < s.skip(1).len() implies s.skip(1)[i] == 0 by {
                assert(s.skip(1)[i] == s[i + 1]);
            }
        }
    }
}

fn is_zero(v: &Vec<u8>) -> (r: bool)
    ensures
        r == (val(v@) == 0),
{
    let mut i: usize = 0;
    while i < v.len()
        invariant
            i <= v.len(),
            forall|j: int| 0 <= j < i ==> v@[j] == 0,
        decreases v.len() - i,
    {
        if v[i] != 0 {
            proof {
                lemma_val_zero(v@);
            }
            return false;
        }
        i += 1;
    }
    proof {
        lemma_val_zero(v@);
    }
    true
}

/// Doubles a digit vector in place and returns the carry.
fn double(v: &mut Vec<u8>) -> (carry: u8)
    requires
        valid_digits(old(v)@),
    ensures
        valid_digits(final(v)@),
        final(v)@.len() == old(v)@.len(),
        carry <= 1,
        carry * decimal::pow10(old(v)@.len()) + val(final(v)@) == 2 * val(old(v)@),
{
    let ghost before = v@;
    let mut i: usize = v.len();
    let mut carry: u8 = 0;
    assert(v@.skip(i as int) =~= Seq::<u8>::empty());
    assert(before.skip(i as int) =~= Seq::<u8>::empty());
    while i > 0
        invariant
            i <= v@.len(),
            v@.len() == before.len(),
            valid_digits(v@),
            valid_digits(before),
            carry <= 1,
            forall|j: int| 0 <= j < i ==> v@[j] == before[j],
            carry * decimal::pow10((v@.len() - i) as nat) + val(v@.skip(i as int)) == 2 * val(
                before.skip(i as int),
            ),
        decreases i,
    {
        let ghost prev = v@;
        let ghost c = carry;
        let ghost m = (v@.len() - i) as nat;
        i -= 1;
        let t: u8 = 2 * v[i] + carry;
        v.set(i, t % 10);
        carry = t / 10;
        proof {
            let p = decimal::pow10(m);
            assert(v@.skip(i as int).skip(1) =~= prev.skip(i + 1));
            assert(before.skip(i as int).skip(1) =~= before.skip(i + 1));
            assert(decimal::pow10(m + 1) == 10 * p);
            assert(carry * (10 * p) + (t % 10) * p == t * p) by (nonlinear_arith)
                requires
                    carry == t / 10,
            ;
            assert(t * p == 2 * (before[i as int] * p) + c * p) by (nonlinear_arith)
                requires
                    t == 2 * before[i as int] + c,
            ;
        }
    }
    assert(v@.skip(0) =~= v@);
    assert(before.skip(0) =~= before);
    carry
}

/// The quotient `(whole * P + val(fraction)) / P` with `P = 10^fraction.len()`, scaled.
fn scale_parts(whole: u128, fraction: Vec<u8>, factor: u64) -> (r: u64)
    requires
        valid_digits(fraction@),
        whole < 0x10_0000_0000_0000_0000_0000,
        1 <= factor <= 1_000_000_000,
    ensures
        r == scaled_quotient(
            whole as nat * decimal::pow10(fraction@.len()) + val(fraction@),
            decimal::pow10(fraction@.len()),
            factor as nat,
        ),
{
    let ghost p = decimal::pow10(fraction@.len());
    let ghost n = (whole * p + val(fraction@)) as nat;
    let ghost frac0 = fraction@;
    proof {
        lemma2_to64();
        lemma2_to64_rest();
        lemma_pow10_adds(fraction@.len(), 0);
        lemma_val_bounds(fraction@);
    }
    if whole >= 0x20_0000_0000_0000 {
        assert(n >= p * pow2(53)) by (nonlinear_arith)
            requires
                n == whole * p + val(fraction@),
                whole >= 0x20_0000_0000_0000,
                pow2(53) == 0x20_0000_0000_0000,
        ;
        let sticky: bool = !is_zero(&fraction);
        let x: u128 = round_wide(whole, sticky, Ghost(p), Ghost(val(fraction@)));
        proof {
            assert(x * factor <= 0x20_0000_0000_0000_0000_0000 * 1_000_000_000)
                by (nonlinear_arith)
                requires
                    x <= 0x20_0000_0000_0000_0000_0000,
                    factor <= 1_000_000_000,
            ;
        }
        return finish(x, 1, factor);
    }
    let mut w: u128 = whole;
    let mut f: Vec<u8> = fraction;
    let mut den: u128 = 1;
    let mut count: u32 = 0;
    let ghost mut s: nat = 0;
    let ghost mut m: nat = n;
    assert(n < p * pow2(53)) by (nonlinear_arith)
        requires
            n == whole * p + val(fraction@),
            val(fraction@) < p,
            whole < 0x20_0000_0000_0000,
            pow2(53) == 0x20_0000_0000_0000,
    ;
    if whole == 0 && is_zero(&f) {
        proof {
            assert(0 * p == 0);
            assert(n == 0);
            lemma_zero_scaled(p, factor as nat);
        }
        return 0;
    }
    assert(n * pow2(0) == n);
    assert(n > 0) by (nonlinear_arith)
        requires
            n == whole * p + val(fraction@),
            whole > 0 || val(fraction@) > 0,
            p > 0,
    ;
    while w < 0x10_0000_0000_0000
        invariant
            pow2(52) == 0x10_0000_0000_0000,
            frac0 == fraction@,
            n == whole * decimal::pow10(frac0.len()) + val(frac0),
            p == decimal::pow10(frac0.len()),
            valid_digits(f@),
            p == decimal::pow10(f@.len()),
            p > 0,
            w < 0x20_0000_0000_0000,
            n > 0,
            m == w * p + val(f@),
            m == n * pow2(s),
            m > 0,
            den == pow2(s),
            s == count,
            1 <= den <= 0x100_0000_0000_0000_0000_0000_0000_0000,
            count <= 120,
            count < 120 ==> den <= 0x80_0000_0000_0000_0000_0000_0000_0000,
            decimal::scale(n, p, 53) == s + decimal::scale(m, p, 53),
            1 <= factor <= 1_000_000_000,
            count == 120 ==> pow2(s) == 0x100_0000_0000_0000_0000_0000_0000_0000,
        decreases 0x20_0000_0000_0000 - w, 200 - count,
    {
        proof {
            lemma_val_bounds(f@);
            assert(m < p * pow2(52)) by (nonlinear_arith)
                requires
                    m == w * p + val(f@),
                    val(f@) < p,
                    w < 0x10_0000_0000_0000,
                    pow2(52) == 0x10_0000_0000_0000,
            ;
        }
        if count == 120 {
            proof {
                assert(n * 0x10_0000_0000_0000_0000 < p) by (nonlinear_arith)
                    requires
                        m < p * pow2(52),
                        m == n * pow2(s),
                        pow2(s) == 0x100_0000_0000_0000_0000_0000_0000_0000,
                        pow2(52) == 0x10_0000_0000_0000,
                ;
                lemma_tiny(n, p, factor as nat);
            }
            return 0;
        }
        let ghost f0 = f@;
        let ghost w0 = w;
        let carry: u8 = double(&mut f);
        w = 2 * w + carry as u128;
        den = 2 * den;
        count = count + 1;
        proof {
            assert(w * p + val(f@) == 2 * (w0 * p + val(f0))) by (nonlinear_arith)
                requires
                    w == 2 * w0 + carry,
                    carry * p + val(f@) == 2 * val(f0),
            ;
            assert(2 * (n * pow2(s)) == n * (2 * pow2(s))) by (nonlinear_arith);
            lemma_pow2_unfold(s + 1);
            m = 2 * m;
            s = s + 1;
            lemma_pow2_120();
            if s < 120 {
                lemma_pow2_strictly_increases(s, 120);
                lemma_pow2_unfold(s + 1);
                if s < 119 {
                    lemma_pow2_strictly_increases(s + 1, 120);
                }
            }
        }
    }
    proof {
        lemma_val_bounds(f@);
        assert(m >= p * pow2(52)) by (nonlinear_arith)
            requires
                m == w * p + val(f@),
                w >= 0x10_0000_0000_0000,
                pow2(52) == 0x10_0000_0000_0000,
        ;
        assert(decimal::scale(n, p, 53) == s);
        lemma_floor(w as nat, p, val(f@));
    }
    let ghost half = f@;
    let carry: u8 = double(&mut f);
    let exact: bool = is_zero(&f);
    let x: u128 = if carry == 0 || (exact && w % 2 == 0) {
        w
    } else {
        w + 1
    };
    proof {
        assert(carry == 0 ==> 2 * val(half) < p) by {
            lemma_val_bounds(f@);
            assert(carry == 0 ==> carry * p == 0);
        }
        assert(carry == 1 ==> carry * p == p);
        assert(x == decimal::round_half_even(m, p));
        assert(x * factor <= 0x20_0000_0000_0000 * 1_000_000_000) by (nonlinear_arith)
            requires
                x <= 0x20_0000_0000_0000,
                factor <= 1_000_000_000,
        ;
    }
    finish(x, den, factor)
}

proof fn lemma_pow2_120()
    ensures
        pow2(120) == 0x100_0000_0000_0000_0000_0000_0000_0000,
{
    lemma2_to64();
    lemma2_to64_rest();
    lemma_pow2_adds(60, 60);
}

/// Quotient and remainder of `w * p + f` by `p`.
proof fn lemma_floor(w: nat, p: nat, f: nat)
    requires
        f < p,
    ensures
        (w * p + f) / p == w,
        (w * p + f) % p == f,
{
    vstd::arithmetic::div_mod::lemma_fundamental_div_mod_converse(
        (w * p + f) as int,
        p as int,
        w as int,
        f as int,
    );
}

/// Rounds `(whole * p + f) / p`, at least `2^53`, to a double; `sticky` tells whether `f` is
/// positive.
fn round_wide(whole: u128, sticky: bool, Ghost(p): Ghost<nat>, Ghost(f): Ghost<nat>) -> (r: u128)
    requires
        0x20_0000_0000_0000 <= whole < 0x10_0000_0000_0000_0000_0000,
        f < p,
        sticky == (f > 0),
    ensures
        whole * p + f >= p * pow2(53),
        (r as nat, 1nat) == decimal::nearest_binary((whole * p + f) as nat, p, 53),
        r <= 0x20_0000_0000_0000_0000_0000,
{
    let ghost n = (whole * p + f) as nat;
    let mut unit: u128 = 1;
    let ghost mut k: nat = 0;
    proof {
        lemma2_to64();
        lemma2_to64_rest();
        assert(n >= p * pow2(53)) by (nonlinear_arith)
            requires
                n == whole * p + f,
                whole >= 0x20_0000_0000_0000,
                pow2(53) == 0x20_0000_0000_0000,
        ;
        assert(p * pow2(0) == p);
    }
    while whole >= unit * 0x20_0000_0000_0000
        invariant
            whole < 0x10_0000_0000_0000_0000_0000,
            n == whole * p + f,
            f < p,
            pow2(53) == 0x20_0000_0000_0000,
            unit == pow2(k),
            1 <= unit < 0x1_0000_0000_0000_0000,
            unit <= whole,
            whole >= unit * 0x20_0000_0000_0000 || unit >= 2,
            unit % 2 == 0 || unit == 1,
            decimal::excess(n, p, 53) == k + decimal::excess(n, p * pow2(k), 53),
        decreases 0x2_0000_0000_0000_0000 - unit,
    {
        proof {
            assert(n >= (p * unit) * pow2(53)) by (nonlinear_arith)
                requires
                    n == whole * p + f,
                    whole >= unit * 0x20_0000_0000_0000,
                    pow2(53) == 0x20_0000_0000_0000,
            ;
            assert(p * unit > 0) by (nonlinear_arith)
                requires
                    p > 0,
                    unit > 0,
            ;
            lemma_pow2_unfold(k + 1);
            assert(2 * (p * pow2(k)) == p * (2 * pow2(k))) by (nonlinear_arith);
            k = k + 1;
        }
        unit = unit * 2;
    }
    let q: u128 = whole / unit;
    let r: u128 = whole % unit;
    let half: u128 = unit / 2;
    proof {
        let e = p * pow2(k);
        let g = r * p + f;
        assert(n < e * pow2(53)) by (nonlinear_arith)
            requires
                n == whole * p + f,
                f < p,
                whole < unit * 0x20_0000_0000_0000,
                pow2(53) == 0x20_0000_0000_0000,
                e == p * unit,
        ;
        vstd::arithmetic::div_mod::lemma_fundamental_div_mod(whole as int, unit as int);
        assert(n == q * e + g) by (nonlinear_arith)
            requires
                n == whole * p + f,
                whole == unit * q + r,
                e == p * unit,
                g == r * p + f,
        ;
        assert(g < e) by (nonlinear_arith)
            requires
                g == r * p + f,
                f < p,
                r < unit,
                e == p * unit,
        ;
        lemma_floor(q as nat, e, g as nat);
        assert(r < half ==> 2 * g < e) by (nonlinear_arith)
            requires
                g == r * p + f,
                f < p,
                e == p * unit,
                unit == 2 * half,
        ;
        assert(r == half ==> 2 * g == e + 2 * f) by (nonlinear_arith)
            requires
                g == r * p + f,
                e == p * unit,
                unit == 2 * half,
        ;
        assert(r > half ==> 2 * g > e) by (nonlinear_arith)
            requires
                g == r * p + f,
                f >= 0,
                p > 0,
                e == p * unit,
                unit == 2 * half,
        ;
        assert((q + 1) * unit <= 2 * whole) by (nonlinear_arith)
            requires
                whole == unit * q + r,
                unit <= whole,
                r >= 0,
        ;
        assert(q * unit <= whole) by (nonlinear_arith)
            requires
                whole == unit * q + r,
                r >= 0,
        ;
    }
    if r < half || (r == half && !sticky && q % 2 == 0) {
        q * unit
    } else {
        (q + 1) * unit
    }
}

/// The double `x / den`, times `factor` as a double, rounded to whole units and capped.
fn finish(x: u128, den: u128, factor: u64) -> (r: u64)
    requires
        1 <= den <= 0x100_0000_0000_0000_0000_0000_0000_0000,
        x * factor < 0x80_0000_0000_0000_0000_0000_0000_0000,
    ensures
        r == capped(
            round_half_up(decimal::to_double((x * factor) as nat), den as nat),
        ),
{
    let y: u128 = decimal::nearest_double(x * factor as u128);
    let hz: u128 = (2 * y + den) / (2 * den);
    if hz > 0xffff_ffff_ffff_ffff {
        0xffff_ffff_ffff_ffff
    } else {
        hz as u64
    }
}

/// Largest exponent magnitude that is kept; beyond it only the sign matters.
const EXPONENT_CAP: i128 = 10_000_000_000_000_000_000_000;

/// `e` limited to the range that is kept.
spec fn capped_exponent(e: int) -> int {
    if e > EXPONENT_CAP {
        EXPONENT_CAP as int
    } else if e < -EXPONENT_CAP {
        -EXPONENT_CAP
    } else {
        e
    }
}

/// `val(digits) * 10^exponent`, scaled. `kept` is the exponent within the kept range.
fn scale_digits(
    digits: &Vec<u8>,
    kept: i128,
    places: usize,
    factor: u64,
    Ghost(exponent): Ghost<int>,
) -> (r: u64)
    requires
        valid_digits(digits@),
        digits@.len() > 0 ==> digits@[0] >= 1,
        kept == capped_exponent(exponent),
        1 <= factor <= 1_000_000_000,
    ensures
        r == scaled_quotient(
            literal_quotient(val(digits@), exponent - places).0,
            literal_quotient(val(digits@), exponent - places).1,
            factor as nat,
        ),
{
    let ghost e = exponent - places;
    let ghost v = val(digits@);
    let len: usize = digits.len();
    proof {
        lemma_val_bounds(digits@);
    }
    if len == 0 {
        let empty: Vec<u8> = Vec::new();
        let r: u64 = scale_parts(0, empty, factor);
        proof {
            let q = literal_quotient(v, e);
            assert(v == 0);
            assert(0 * decimal::pow10(e as nat) == 0);
            lemma_pow10_adds((-e) as nat, 0);
            lemma_zero_scaled(q.1, factor as nat);
            lemma_zero_scaled(1, factor as nat);
            assert(0 * decimal::pow10(0) == 0);
        }
        return r;
    }
    let position: i128 = len as i128 + kept - places as i128;
    if position > 25 {
        proof {
            assert(len + e > 25);
            if e >= 0 {
                lemma_pow10_adds((len - 1) as nat, e as nat);
                lemma_pow10_monotone(24, (len - 1 + e) as nat);
                lemma_pow10_24();
                let p = decimal::pow10((len - 1) as nat);
                let q = decimal::pow10(e as nat);
                assert(v * q >= p * q) by (nonlinear_arith)
                    requires
                        v >= p,
                        q >= 0,
                ;
                assert(v * q >= 1 * 1_000_000_000_000_000_000_000_000);
            } else {
                let q = decimal::pow10((-e) as nat);
                lemma_pow10_adds((-e) as nat, 24);
                lemma_pow10_monotone((-e + 24) as nat, (len - 1) as nat);
                lemma_pow10_24();
                assert(v >= q * 1_000_000_000_000_000_000_000_000);
            }
            lemma_huge(literal_quotient(v, e).0, literal_quotient(v, e).1, factor as nat);
        }
        return 0xffff_ffff_ffff_ffff;
    }
    if position < -40 {
        proof {
            assert(e < 0);
            let q = decimal::pow10((-e) as nat);
            lemma_pow10_adds(len as nat, 24);
            lemma_pow10_24();
            lemma_pow10_monotone((len + 24) as nat, (-e) as nat);
            let p = decimal::pow10(len as nat);
            assert(v * 0x10_0000_0000_0000_0000 < p * 1_000_000_000_000_000_000_000_000)
                by (nonlinear_arith)
                requires
                    v < p,
            ;
            lemma_tiny(v, q, factor as nat);
        }
        return 0;
    }
    assert(kept == exponent);
    let mut whole: u128 = 0;
    let mut i: usize = 0;
    let stop: usize = if position <= 0 {
        0
    } else if position < len as i128 {
        position as usize
    } else {
        len
    };
    proof {
        lemma_pow10_24();
        assert(digits@.take(0) =~= Seq::<u8>::empty());
        assert(decimal::pow10(0) == 1);
    }
    while i < stop
        invariant
            i <= stop <= len,
            stop <= 25,
            len == digits@.len(),
            valid_digits(digits@),
            whole == val(digits@.take(i as int)),
            whole < decimal::pow10(i as nat),
        decreases stop - i,
    {
        proof {
            assert(digits@.take(i + 1) =~= digits@.take(i as int).push(digits@[i as int]));
            lemma_val_push(digits@.take(i as int), digits@[i as int]);
            lemma_pow10_monotone(i as nat, 24);
            lemma_pow10_24();
        }
        whole = whole * 10 + digits[i] as u128;
        i += 1;
    }
    let mut fraction: Vec<u8> = Vec::new();
    if position > len as i128 {
        let mut j: i128 = len as i128;
        assert(digits@.take(stop as int) =~= digits@);
        assert(e >= 0);
        assert(v * decimal::pow10(0) == v);
        while j < position
            invariant
                len <= j <= position <= 25,
                whole == v * decimal::pow10((j - len) as nat),
                whole < decimal::pow10(j as nat),
            decreases position - j,
        {
            proof {
                let p = decimal::pow10((j - len) as nat);
                assert(10 * (v * p) == v * (10 * p)) by (nonlinear_arith);
                lemma_pow10_monotone(j as nat, 24);
                lemma_pow10_24();
            }
            whole = whole * 10;
            j += 1;
        }
        proof {
            lemma_pow10_monotone(position as nat, 25);
            lemma_pow10_24();
            assert(decimal::pow10(25) == 10 * decimal::pow10(24));
            assert(val(fraction@) == 0);
            assert(whole as nat * decimal::pow10(0) == whole);
            assert(e == position - len);
        }
        return scale_parts(whole, fraction, factor);
    }
    let mut z: i128 = position;
    while z < 0
        invariant
            -40 <= position <= 25,
            position <= z,
            z <= 0 || z == position,
            valid_digits(fraction@),
            fraction@.len() == z - position,
            forall|k: int| 0 <= k < fraction@.len() ==> fraction@[k] == 0,
        decreases -z,
    {
        fraction.push(0);
        z += 1;
    }
    let ghost zeros = fraction@;
    let mut m: usize = stop;
    while m < len
        invariant
            stop <= m <= len,
            len == digits@.len(),
            valid_digits(digits@),
            valid_digits(fraction@),
            fraction@ =~= zeros + digits@.subrange(stop as int, m as int),
        decreases len - m,
    {
        fraction.push(digits[m]);
        m += 1;
    }
    proof {
        let head = digits@.take(stop as int);
        let tail = digits@.skip(stop as int);
        assert(fraction@ =~= zeros + tail);
        assert(digits@ =~= head + tail);
        lemma_val_split(head, tail);
        lemma_val_split(zeros, tail);
        lemma_val_zero(zeros);
        assert(0 * decimal::pow10(tail.len()) == 0);
        assert(stop > 0 ==> zeros.len() == 0);
        assert(-e == fraction@.len());
        if stop == 0 {
            assert(val(head) == 0);
            assert(0 * decimal::pow10(fraction@.len()) == 0);
        } else {
            assert(zeros.len() == 0);
        }
        lemma_pow10_monotone(stop as nat, 25);
        assert(decimal::pow10(25) == 10 * decimal::pow10(24));
        if e == 0 {
            assert(v * decimal::pow10(0) == v);
        }
    }
    scale_parts(whole, fraction, factor)
}

proof fn lemma_zero_scaled(d: nat, factor: nat)
    requires
        d > 0,
        factor <= 1_000_000_000,
    ensures
        scaled_quotient(0, d, factor) == 0,
{
    lemma_tiny(0, d, factor);
}

proof fn lemma_pow10_24()
    ensures
        decimal::pow10(24) == 1_000_000_000_000_000_000_000_000,
{
    reveal_with_fuel(decimal::pow10, 13);
    lemma_pow10_adds(12, 12);
}

proof fn lemma_pow10_monotone(a: nat, b: nat)
    requires
        a <= b,
    ensures
        decimal::pow10(a) <= decimal::pow10(b),
{
    lemma_pow10_adds(a, (b - a) as nat);
    lemma_pow10_adds((b - a) as nat, 0);
    let p = decimal::pow10(a);
    let q = decimal::pow10((b - a) as nat);
    assert(p * q >= p) by (nonlinear_arith)
        requires
            q >= 1,
    ;
}

// ── Reading literals ────────────────────────────────────────────────────────

fn lower_chars(v: &Vec<char>) -> (r: Vec<char>)
    ensures
        r@ == text::ascii_lower(v@),
{
    let mut r: Vec<char> = Vec::new();
    let mut i: usize = 0;
    while i < v.len()
        invariant
            i <= v.len(),
            r@ =~= text::ascii_lower(v@.take(i as int)),
        decreases v.len() - i,
    {
        let c: char = v[i];
        if 'A' <= c && c <= 'Z' {
            let b: u8 = c as u8 + 32;
            r.push(b as char);
        } else {
            r.push(c);
        }
        i += 1;
    }
    assert(v@.take(v@.len() as int) =~= v@);
    r
}

fn find_char(v: &Vec<char>, from: usize, to: usize, c: char) -> (r: usize)
    requires
        from <= to <= v@.len(),
    ensures
        from <= r <= to,
        r - from == find(v@.subrange(from as int, to as int), c),
{
    let mut i: usize = from;
    while i < to && v[i] != c
        invariant
            from <= i <= to <= v@.len(),
            find(v@.subrange(from as int, to as int), c) == i - from + find(
                v@.subrange(i as int, to as int),
                c,
            ),
        decreases to - i,
    {
        assert(v@.subrange(i as int, to as int).skip(1) =~= v@.subrange(i + 1, to as int));
        i += 1;
    }
    i
}

fn range_is_digits(v: &Vec<char>, from: usize, to: usize) -> (r: bool)
    requires
        from <= to <= v@.len(),
    ensures
        r == text::all_digits(v@.subrange(from as int, to as int)),
{
    let ghost s = v@.subrange(from as int, to as int);
    let mut i: usize = from;
    while i < to
        invariant
            from <= i <= to <= v@.len(),
            s == v@.subrange(from as int, to as int),
            forall|j: int| 0 <= j < i - from ==> text::is_digit(#[trigger] s[j]),
        decreases to - i,
    {
        let c: char = v[i];
        if c < '0' || c > '9' {
            assert(!text::is_digit(s[i - from]));
            return false;
        }
        i += 1;
    }
    true
}

/// Appends the digits of `v[from..to]`, leaving out zeros in front of the first other digit.
fn push_digits(
    out: &mut Vec<u8>,
    v: &Vec<char>,
    from: usize,
    to: usize,
    Ghost(before): Ghost<Seq<char>>,
)
    requires
        from <= to <= v@.len(),
        text::all_digits(v@.subrange(from as int, to as int)),
        valid_digits(old(out)@),
        old(out)@.len() > 0 ==> old(out)@[0] >= 1,
        text::dec_value(before) == val(old(out)@),
    ensures
        valid_digits(final(out)@),
        final(out)@.len() > 0 ==> final(out)@[0] >= 1,
        val(final(out)@) == text::dec_value(before + v@.subrange(from as int, to as int)),
{
    let mut i: usize = from;
    assert(before + v@.subrange(from as int, i as int) =~= before);
    while i < to
        invariant
            from <= i <= to <= v@.len(),
            text::all_digits(v@.subrange(from as int, to as int)),
            valid_digits(out@),
            out@.len() > 0 ==> out@[0] >= 1,
            val(out@) == text::dec_value(before + v@.subrange(from as int, i as int)),
        decreases to - i,
    {
        let c: char = v[i];
        assert(text::is_digit(v@.subrange(from as int, to as int)[i - from]));
        let d: u8 = c as u8 - '0' as u8;
        let ghost prev = out@;
        if out.len() > 0 || d > 0 {
            out.push(d);
        }
        proof {
            lemma_val_push(prev, d);
            if prev.len() == 0 && d == 0 {
                assert(val(out@) == 0);
            }
            assert(val(out@) == val(prev) * 10 + d);
            let t = before + v@.subrange(from as int, i + 1);
            assert(t.drop_last() =~= before + v@.subrange(from as int, i as int));
            assert(t.last() == c);
        }
        i += 1;
    }
}

/// The exponent written in `v[from..]`, limited to the kept range.
fn read_exponent(v: &Vec<char>, from: usize) -> (r: Option<i128>)
    requires
        from <= v@.len(),
    ensures
        match r {
            Some(e) => is_exponent(v@.skip(from as int)) && e == capped_exponent(
                exponent_value(v@.skip(from as int)),
            ),
            None => !is_exponent(v@.skip(from as int)),
        },
{
    let ghost s = v@.skip(from as int);
    let len: usize = v.len();
    let negative: bool = from < len && v[from] == '-';
    let signed: bool = from < len && (v[from] == '-' || v[from] == '+');
    let start: usize = if signed {
        from + 1
    } else {
        from
    };
    assert(unsigned_part(s) =~= v@.subrange(start as int, len as int));
    if start == len || !range_is_digits(v, start, len) {
        return None;
    }
    let mut acc: i128 = 0;
    let mut i: usize = start;
    assert(v@.subrange(start as int, start as int) =~= Seq::<char>::empty());
    while i < len
        invariant
            start <= i <= len,
            len == v@.len(),
            text::all_digits(v@.subrange(start as int, len as int)),
            0 <= acc <= EXPONENT_CAP,
            acc == capped_exponent(
                text::dec_value(v@.subrange(start as int, i as int)) as int,
            ),
        decreases len - i,
    {
        assert(text::is_digit(v@.subrange(start as int, len as int)[i - start]));
        let d: u8 = v[i] as u8 - '0' as u8;
        proof {
            let t = v@.subrange(start as int, i + 1);
            assert(t.drop_last() =~= v@.subrange(start as int, i as int));
            assert(t.last() == v@[i as int]);
        }
        let next: i128 = acc * 10 + d as i128;
        acc = if next > EXPONENT_CAP {
            EXPONENT_CAP
        } else {
            next
        };
        i += 1;
    }
    if negative {
        Some(-acc)
    } else {
        Some(acc)
    }
}

/// The exponent that an unsigned literal writes; zero when it writes none.
spec fn written_exponent(body: Seq<char>) -> int {
    if has_exponent(body) {
        exponent_value(exponent_part(body))
    } else {
        0
    }
}

/// Reads `v[from..]` as an unsigned number and scales it.
fn scale_number(v: &Vec<char>, from: usize, factor: u64) -> (r: Option<u64>)
    requires
        from <= v@.len(),
        1 <= factor <= 1_000_000_000,
    ensures
        ({
            let body = v@.skip(from as int);
            let m = mantissa_part(body);
            let q = literal_quotient(
                text::dec_value(whole_digits(m) + fraction_digits(m)),
                written_exponent(body) - fraction_digits(m).len(),
            );
            match r {
                Some(hz) => is_number(body) && hz == scaled_quotient(q.0, q.1, factor as nat),
                None => !is_number(body),
            }
        }),
{
    let len: usize = v.len();
    let ghost body = v@.skip(from as int);
    assert(body =~= v@.subrange(from as int, len as int));
    let mark: usize = find_char(v, from, len, 'e');
    let point: usize = find_char(v, from, mark, '.');
    let ghost m = mantissa_part(body);
    assert(m =~= v@.subrange(from as int, mark as int));
    let tail: usize = if point < mark {
        point + 1
    } else {
        mark
    };
    assert(whole_digits(m) =~= v@.subrange(from as int, point as int));
    assert(fraction_digits(m) =~= v@.subrange(tail as int, mark as int));
    if !range_is_digits(v, from, point) || !range_is_digits(v, tail, mark) || (point == from && mark
        == tail) {
        return None;
    }
    assert(is_plain_decimal(m));
    let kept: i128 = if mark < len {
        assert(exponent_part(body) =~= v@.skip(mark + 1));
        match read_exponent(v, mark + 1) {
            Some(e) => e,
            None => {
                return None;
            },
        }
    } else {
        0
    };
    let mut digits: Vec<u8> = Vec::new();
    push_digits(&mut digits, v, from, point, Ghost(Seq::<char>::empty()));
    assert(Seq::<char>::empty() + whole_digits(m) =~= whole_digits(m));
    push_digits(&mut digits, v, tail, mark, Ghost(whole_digits(m)));
    Some(scale_digits(&digits, kept, mark - tail, factor, Ghost(written_exponent(body))))
}

/// Reads `s` as a floating-point literal and scales it to whole units of `1 / factor`.
pub fn scale_literal(s: &str, factor: u64) -> (r: Option<u64>)
    requires
        1 <= factor <= 1_000_000_000,
    ensures
        match literal(s@) {
            Some(l) => r is Some && r->0 == scaled(l, factor as nat),
            None => r is None,
        },
{
    let raw: Vec<char> = text::to_chars(s);
    let v: Vec<char> = lower_chars(&raw);
    let len: usize = v.len();
    let negative: bool = len > 0 && v[0] == '-';
    let from: usize = if len > 0 && (v[0] == '-' || v[0] == '+') {
        1
    } else {
        0
    };
    let ghost body = unsigned_part(v@);
    assert(body =~= v@.skip(from as int));
    if let Some(hz) = scale_number(&v, from, factor) {
        if negative {
            return Some(0);
        }
        return Some(hz);
    }
    let word: String = text::from_chars(&v, from, len);
    assert(word@ =~= body);
    if text::same_text(word.as_str(), "inf") || text::same_text(word.as_str(), "infinity") {
        if negative {
            return Some(0);
        }
        return Some(0xffff_ffff_ffff_ffff);
    }
    if text::same_text(word.as_str(), "nan") {
        return Some(0);
    }
    None
}

// ── Facts about searching ───────────────────────────────────────────────────

/// The first occurrence of `c` after a prefix without it.
pub proof fn lemma_find_after(prefix: Seq<char>, c: char, rest: Seq<char>)
    requires
        !prefix.contains(c),
    ensures
        find(prefix.push(c) + rest, c) == prefix.len(),
    decreases prefix.len(),
{
    let s = prefix.push(c) + rest;
    if prefix.len() > 0 {
        assert(prefix.contains(prefix[0]));
        assert forall|i: int| 0 <= i < prefix.skip(1).len() implies prefix.skip(1)[i] != c by {
            assert(prefix.contains(prefix[i + 1]));
        }
        lemma_find_after(prefix.skip(1), c, rest);
        assert(s.skip(1) =~= prefix.skip(1).push(c) + rest);
    }
}

/// A character that does not occur is searched to the end.
pub proof fn lemma_find_missing(s: Seq<char>, c: char)
    requires
        !s.contains(c),
    ensures
        find(s, c) == s.len(),
    decreases s.len(),
{
    if s.len() > 0 {
        assert(s.contains(s[0]));
        assert forall|i: int| 0 <= i < s.skip(1).len() implies s.skip(1)[i] != c by {
            assert(s.contains(s[i + 1]));
        }
        lemma_find_missing(s.skip(1), c);
    }
}

// ── Laws ────────────────────────────────────────────────────────────────────

/// Rounding to whole hertz goes to the nearest number, halves up; the result is capped at the largest
/// frequency.
pub proof fn law_round_half_up(n: nat, d: nat)
    requires
        d > 0,
    ensures
        2 * (round_half_up(n, d) * d) <= 2 * n + d,
        2 * n < 2 * (round_half_up(n, d) * d) + d,
        n <= u64::MAX ==> capped(n) == n,
        n > u64::MAX ==> capped(n) == u64::MAX,
{
    let r = round_half_up(n, d) as int;
    vstd::arithmetic::div_mod::lemma_fundamental_div_mod((2 * n + d) as int, (2 * d) as int);
    assert((2 * d) * r == 2 * (r * d)) by (nonlinear_arith);
    vstd::arithmetic::div_mod::lemma_mod_bound((2 * n + d) as int, (2 * d) as int);
}

/// A literal of digits with a point among them is the number that the digits make, divided by ten
/// for each digit behind the point. A sign in front makes it negative or leaves it; no frequency is
/// negative.
pub proof fn law_decimal_literal(a: Seq<char>, b: Seq<char>, factor: nat)
    requires
        text::all_digits(a),
        text::all_digits(b),
        a.len() > 0,
    ensures
        literal_lower(a.push('.') + b) == Some(
            Literal::Finite {
                negative: false,
                mantissa: text::dec_value(a + b),
                exponent: -(b.len() as int),
            },
        ),
        literal_lower(seq!['-'] + (a.push('.') + b)) == Some(
            Literal::Finite {
                negative: true,
                mantissa: text::dec_value(a + b),
                exponent: -(b.len() as int),
            },
        ),
        literal_lower(seq!['+'] + (a.push('.') + b)) == literal_lower(a.push('.') + b),
        scaled(literal_lower(seq!['-'] + (a.push('.') + b))->0, factor) == 0,
{
    let s = a.push('.') + b;
    assert forall|i: int| 0 <= i < s.len() implies s[i] != 'e' by {
        if i < a.len() {
            assert(text::is_digit(a[i]));
        } else if i > a.len() {
            assert(text::is_digit(b[i - a.len() - 1]));
        }
    }
    assert forall|i: int| 0 <= i < a.len() implies a[i] != '.' by {
        assert(text::is_digit(a[i]));
    }
    lemma_find_missing(s, 'e');
    lemma_find_after(a, '.', b);
    assert(mantissa_part(s) =~= s);
    assert(whole_digits(s) =~= a);
    assert(fraction_digits(s) =~= b);
    assert(text::is_digit(a[0]) && s[0] == a[0]);
    assert(unsigned_part(s) == s);
    let minus = seq!['-'] + s;
    let plus = seq!['+'] + s;
    assert(minus[0] == '-' && plus[0] == '+');
    assert(unsigned_part(minus) =~= s);
    assert(unsigned_part(plus) =~= s);
}

/// An exponent behind a decimal number shifts its point by so many places, to the left when the
/// exponent is negative.
pub proof fn law_exponent_shifts_the_point(a: Seq<char>, b: Seq<char>, x: Seq<char>)
    requires
        text::all_digits(a),
        text::all_digits(b),
        text::all_digits(x),
        a.len() > 0,
        x.len() > 0,
    ensures
        literal_lower((a.push('.') + b).push('e') + x) == Some(
            Literal::Finite {
                negative: false,
                mantissa: text::dec_value(a + b),
                exponent: text::dec_value(x) - b.len(),
            },
        ),
        literal_lower((a.push('.') + b).push('e') + (seq!['-'] + x)) == Some(
            Literal::Finite {
                negative: false,
                mantissa: text::dec_value(a + b),
                exponent: -(text::dec_value(x) as int) - b.len(),
            },
        ),
{
    let m = a.push('.') + b;
    let y = seq!['-'] + x;
    let s = m.push('e') + x;
    let n = m.push('e') + y;
    assert forall|i: int| 0 <= i < m.len() implies m[i] != 'e' by {
        if i < a.len() {
            assert(text::is_digit(a[i]));
        } else if i > a.len() {
            assert(text::is_digit(b[i - a.len() - 1]));
        }
    }
    assert forall|i: int| 0 <= i < a.len() implies a[i] != '.' by {
        assert(text::is_digit(a[i]));
    }
    lemma_find_after(m, 'e', x);
    lemma_find_after(m, 'e', y);
    lemma_find_after(a, '.', b);
    assert(mantissa_part(s) =~= m && mantissa_part(n) =~= m);
    assert(exponent_part(s) =~= x && exponent_part(n) =~= y);
    assert(whole_digits(m) =~= a);
    assert(fraction_digits(m) =~= b);
    assert(text::is_digit(a[0]) && s[0] == a[0] && n[0] == a[0]);
    assert(unsigned_part(s) == s && unsigned_part(n) == n);
    assert(text::is_digit(x[0]));
    assert(unsigned_part(x) == x);
    assert(y[0] == '-');
    assert(unsigned_part(y) =~= x);
}

} // verus!
