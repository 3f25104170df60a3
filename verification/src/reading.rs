//! Levels in decimal: the exact value of the pattern, rounded to so many decimals.

use vstd::arithmetic::power2::*;
use vstd::prelude::*;
use vstd::string::*;

use crate::decimal;
use crate::level;
use crate::level::Level;
use crate::text;

verus! {

/// The pattern without its sign.
pub open spec fn magnitude(x: Level) -> nat {
    (x.bits % 0x8000_0000) as nat
}

/// The exponent field.
pub open spec fn exponent(x: Level) -> nat {
    magnitude(x) / 0x80_0000
}

/// The significand: a level counts so many steps of a size that its exponent gives.
pub open spec fn significand(x: Level) -> nat {
    if exponent(x) == 0 {
        magnitude(x)
    } else {
        magnitude(x) % 0x80_0000 + 0x80_0000
    }
}

/// The size of a step is `2^(step_power - 150)`.
pub open spec fn step_power(x: Level) -> nat {
    if exponent(x) == 0 {
        1
    } else {
        exponent(x)
    }
}

/// A level without its sign in units of `10^-places`, the nearest one, and the even one of two.
pub open spec fn level_units(x: Level, places: nat) -> nat {
    let n = decimal::pow10(places) * significand(x);
    if step_power(x) >= 150 {
        n * pow2((step_power(x) - 150) as nat)
    } else {
        decimal::round_half_even(n, pow2((150 - step_power(x)) as nat))
    }
}

/// A level with so many decimals.
pub open spec fn level_text(x: Level, places: nat) -> Seq<char> {
    if x.is_nan() {
        "NaN"@
    } else {
        (if x.bits >= 0x8000_0000 {
            "-"@
        } else {
            ""@
        }) + (if exponent(x) == 255 {
            "inf"@
        } else {
            decimal::fixed_text(level_units(x, places), places)
        })
    }
}

/// `n * 2^by`.
fn raised(n: u128, by: u32) -> (r: u128)
    requires
        n < 0x100_0000,
        by <= 104,
    ensures
        r == n * pow2(by as nat),
{
    let mut r: u128 = n;
    let mut i: u32 = 0;
    proof {
        lemma2_to64();
    }
    while i < by
        invariant
            i <= by <= 104,
            n < 0x100_0000,
            r == n * pow2(i as nat),
        decreases by - i,
    {
        proof {
            lemma_pow2_unfold((i + 1) as nat);
            lemma_raised_fits(n as nat, (i + 1) as nat);
            assert(2 * (n * pow2(i as nat)) == n * (2 * pow2(i as nat))) by (nonlinear_arith);
        }
        r = r * 2;
        i += 1;
    }
    r
}

proof fn lemma_raised_fits(n: nat, by: nat)
    requires
        n < 0x100_0000,
        by <= 104,
    ensures
        n * pow2(by) <= u128::MAX,
{
    lemma2_to64();
    lemma_pow2_adds(52, 52);
    lemma2_to64_rest();
    if by < 104 {
        lemma_pow2_strictly_increases(by, 104);
    }
    let p = pow2(by);
    assert(pow2(104) == 0x10_0000_0000_0000 * 0x10_0000_0000_0000);
    assert(n * p <= 0xFF_FFFF * (0x10_0000_0000_0000 * 0x10_0000_0000_0000)) by (nonlinear_arith)
        requires
            n <= 0xFF_FFFF,
            p <= 0x10_0000_0000_0000 * 0x10_0000_0000_0000,
    ;
}

/// Less than half a unit rounds to nothing.
proof fn lemma_rounds_to_zero(n: nat, d: nat)
    requires
        2 * n < d,
    ensures
        decimal::round_half_even(n, d) == 0,
{
    vstd::arithmetic::div_mod::lemma_small_mod(n, d);
    vstd::arithmetic::div_mod::lemma_basic_div(n as int, d as int);
}

/// Whole numbers show zeros behind the point.
proof fn lemma_whole_text(n: nat, places: nat)
    requires
        places >= 1,
    ensures
        decimal::fixed_text(decimal::pow10(places) * n, places) == text::dec(n).push('.')
            + text::dec_fixed(0, places),
{
    let p = decimal::pow10(places);
    lemma_pow10_positive(places);
    vstd::arithmetic::div_mod::lemma_div_multiples_vanish(n as int, p as int);
    vstd::arithmetic::div_mod::lemma_mod_multiples_basic(n as int, p as int);
    assert(p * n == n * p) by (nonlinear_arith);
}

proof fn lemma_pow10_positive(places: nat)
    ensures
        decimal::pow10(places) >= 1,
    decreases places,
{
    if places > 0 {
        lemma_pow10_positive((places - 1) as nat);
    }
}

/// Appends the digits of a number without its sign.
fn push_magnitude(out: &mut String, x: Level, places: usize)
    requires
        1 <= places <= 9,
        exponent(x) < 255,
    ensures
        final(out)@ == old(out)@ + decimal::fixed_text(
            level_units(x, places as nat),
            places as nat,
        ),
{
    let ghost start = out@;
    let magnitude: u32 = x.bits % 0x8000_0000;
    let exponent: u32 = magnitude / 0x80_0000;
    let (m, power): (u32, u32) = if exponent == 0 {
        (magnitude, 1)
    } else {
        (magnitude % 0x80_0000 + 0x80_0000, exponent)
    };
    let p: u128 = decimal::power_of_ten(places);
    if power >= 150 {
        let n: u128 = raised(m as u128, power - 150);
        text::push_dec_wide(out, n);
        out.push('.');
        text::push_dec_fixed(out, 0, places);
        proof {
            let q = pow2((power - 150) as nat);
            assert(p * m * q == p * (m * q)) by (nonlinear_arith);
            lemma_whole_text(n as nat, places as nat);
            assert(out@ =~= start + (text::dec(n as nat).push('.') + text::dec_fixed(
                0,
                places as nat,
            )));
        }
    } else {
        let by: u32 = 150 - power;
        assert(p * m <= 1_000_000_000 * 0xFF_FFFF) by (nonlinear_arith)
            requires
                p <= 1_000_000_000,
                m <= 0xFF_FFFF,
        ;
        let n: u128 = p * m as u128;
        let units: u128 = if by > 100 {
            proof {
                lemma2_to64();
                lemma2_to64_rest();
                lemma_pow2_strictly_increases(64, by as nat);
                lemma_rounds_to_zero(n as nat, pow2(by as nat));
            }
            0
        } else {
            let d: u128 = raised(1, by);
            proof {
                lemma2_to64();
                lemma2_to64_rest();
                lemma_pow2_adds(50, 50);
                lemma_pow2_pos(by as nat);
                if by < 100 {
                    lemma_pow2_strictly_increases(by as nat, 100);
                }
            }
            decimal::divide_half_even(n, d)
        };
        decimal::push_fixed(out, units, places);
    }
}

/// Appends a level with `places` decimals.
pub fn push_level(out: &mut String, x: Level, places: usize)
    requires
        1 <= places <= 9,
    ensures
        final(out)@ == old(out)@ + level_text(x, places as nat),
{
    let ghost start = out@;
    proof {
        reveal_strlit("");
    }
    if x.nan() {
        out.append("NaN");
        return;
    }
    if x.bits >= 0x8000_0000 {
        out.append("-");
    } else {
        assert(start + ""@ =~= start);
    }
    if x.bits % 0x8000_0000 / 0x80_0000 == 255 {
        out.append("inf");
    } else {
        push_magnitude(out, x, places);
    }
    assert(out@ =~= start + level_text(x, places as nat));
}

/// The decimals shown of a level are the nearest to the number that it stands for: no further off
/// than half a unit of the last place, whatever the sign, which is shown for negative ones only.
pub proof fn law_shown_level_is_nearest(x: Level, places: nat)
    requires
        !x.is_nan(),
    ensures
        ({
            let size = if level::number_of(x.bits) < 0 {
                -level::number_of(x.bits)
            } else {
                level::number_of(x.bits)
            };
            let shown = level_units(x, places) * pow2(149);
            let exact = decimal::pow10(places) * size;
            &&& 2 * shown <= 2 * exact + pow2(149)
            &&& 2 * exact <= 2 * shown + pow2(149)
        }),
        level::number_of(x.bits) > 0 && exponent(x) < 255 ==> level_text(x, places)
            == decimal::fixed_text(level_units(x, places), places),
        level::number_of(x.bits) < 0 && exponent(x) < 255 ==> level_text(x, places) == seq!['-']
            + decimal::fixed_text(level_units(x, places), places),
        level_units(x, places) == level_units(level::of((x.bits % 0x8000_0000) as u32), places),
{
    reveal_strlit("-");
    reveal_strlit("");
    let sp = step_power(x);
    let sig = significand(x) as int;
    let t = decimal::pow10(places) as int;
    let p = pow2((sp - 1) as nat) as int;
    let size = sig * p;
    lemma_pow2_pos((sp - 1) as nat);
    assert(pow2(0) == 1) by {
        lemma2_to64();
    }
    let number = level::number_of(x.bits);
    assert(sig * 1 == sig);
    assert(number == size || number == -size);
    assert(size >= 0) by (nonlinear_arith)
        requires
            sig >= 0,
            p > 0,
            size == sig * p,
    ;
    let n = decimal::pow10(places) * significand(x);
    assert(t * size == n * p) by (nonlinear_arith)
        requires
            size == sig * p,
            n == t * sig,
    ;
    let u = level_units(x, places) as int;
    if sp >= 150 {
        lemma_pow2_adds((sp - 150) as nat, 149);
        let a = pow2((sp - 150) as nat) as int;
        let b = pow2(149) as int;
        assert((n * a) * b == n * (a * b)) by (nonlinear_arith);
    } else {
        let d = pow2((150 - sp) as nat);
        lemma_pow2_pos((150 - sp) as nat);
        decimal::lemma_round_tight(n, d);
        lemma_pow2_adds((150 - sp) as nat, (sp - 1) as nat);
        let b = pow2(149) as int;
        assert(d * p == b);
        assert(2 * (u * b) <= 2 * (n * p) + b && 2 * (n * p) <= 2 * (u * b) + b)
            by (nonlinear_arith)
            requires
                d * p == b,
                p > 0,
                2 * (u * d) <= 2 * n + d,
                2 * n <= 2 * (u * d) + d,
        ;
    }
    let text = decimal::fixed_text(level_units(x, places), places);
    assert(""@ + text =~= text);
    assert("-"@ =~= seq!['-']);
    assert((x.bits % 0x8000_0000) % 0x8000_0000 == x.bits % 0x8000_0000);
}

} // verus!
