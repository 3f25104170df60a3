//! Readings and settings that are measured in single precision.
//!
//! A level (a volume, a zoom, a power in dBFS) is carried as its 32-bit pattern. The library never
//! computes with levels; it carries them, compares them in the order of the numbers they stand for,
//! and writes them in decimal.

use vstd::arithmetic::power2::*;
use vstd::prelude::*;

verus! {

/// A single-precision number, by its bit pattern.
#[derive(Clone, Copy, PartialEq, Eq, Structural, Debug)]
pub struct Level {
    pub bits: u32,
}

impl Level {
    /// Not a number.
    pub open spec fn is_nan(self) -> bool {
        (0x7F80_0000 < self.bits < 0x8000_0000) || self.bits > 0xFF80_0000
    }

    /// Position in the order of numbers; both zeros stand at 0.
    pub open spec fn rank(self) -> int {
        if self.bits < 0x8000_0000 {
            self.bits as int
        } else {
            0x8000_0000 - self.bits
        }
    }

    /// `self < other` as numbers; never so for what is not a number.
    pub open spec fn below(self, other: Level) -> bool {
        !self.is_nan() && !other.is_nan() && self.rank() < other.rank()
    }

    /// `self >= other` as numbers.
    pub open spec fn reaches(self, other: Level) -> bool {
        !self.is_nan() && !other.is_nan() && self.rank() >= other.rank()
    }

    /// `self` limited to `[lo, hi]`; what is not a number stays so.
    pub open spec fn within(self, lo: Level, hi: Level) -> Level {
        if self.below(lo) {
            lo
        } else if hi.below(self) {
            hi
        } else {
            self
        }
    }

    pub fn nan(self) -> (r: bool)
        ensures
            r == self.is_nan(),
    {
        (0x7F80_0000 < self.bits && self.bits < 0x8000_0000) || self.bits > 0xFF80_0000
    }

    pub fn key(self) -> (r: i64)
        ensures
            r == self.rank(),
    {
        if self.bits < 0x8000_0000 {
            self.bits as i64
        } else {
            0x8000_0000 - self.bits as i64
        }
    }

    /// Whether `self < other`.
    pub fn lt(self, other: Level) -> (r: bool)
        ensures
            r == self.below(other),
    {
        !self.nan() && !other.nan() && self.key() < other.key()
    }

    /// Whether `self >= other`.
    pub fn ge(self, other: Level) -> (r: bool)
        ensures
            r == self.reaches(other),
    {
        !self.nan() && !other.nan() && self.key() >= other.key()
    }

    /// Limits a level to `[lo, hi]`.
    pub fn clamp(self, lo: Level, hi: Level) -> (r: Level)
        requires
            hi.reaches(lo),
        ensures
            r == self.within(lo, hi),
            !self.is_nan() ==> r.reaches(lo) && hi.reaches(r),
    {
        if self.lt(lo) {
            lo
        } else if hi.lt(self) {
            hi
        } else {
            self
        }
    }
}

/// 1.0
pub const ONE_BITS: u32 = 0x3F80_0000;

/// 0.8
pub const DEFAULT_VOLUME_BITS: u32 = 0x3F4C_CCCD;

/// 0.01
pub const SILENT_VOLUME_BITS: u32 = 0x3C23_D70A;

/// 0.005
pub const MIN_ZOOM_BITS: u32 = 0x3BA3_D70A;

/// -50.0
pub const DEFAULT_SQUELCH_BITS: u32 = 0xC248_0000;

#[verifier::allow_in_spec]
pub fn of(bits: u32) -> Level
    returns
        (Level { bits }),
{
    Level { bits }
}

/// Limiting twice changes nothing more.
pub proof fn law_clamp_twice(x: Level, lo: Level, hi: Level)
    requires
        hi.reaches(lo),
    ensures
        x.within(lo, hi).within(lo, hi) == x.within(lo, hi),
{
}

/// The number that a bit pattern stands for, counted in the smallest positive one: a sign, eight
/// bits of exponent and 23 of fraction, with a hidden leading one unless the exponent is zero.
pub open spec fn number_of(bits: u32) -> int {
    let unsigned = (bits % 0x8000_0000) as int;
    let e = unsigned / 0x80_0000;
    let f = unsigned % 0x80_0000;
    let size = if e == 0 {
        f
    } else {
        (0x80_0000 + f) * pow2((e - 1) as nat)
    };
    if bits < 0x8000_0000 {
        size
    } else {
        -size
    }
}

/// Levels are in the order of the numbers that they stand for. A pattern whose exponent is all ones
/// and whose fraction is not zero is no number: it is neither below nor at or above anything.
pub proof fn law_order_is_numeric(x: Level, y: Level)
    ensures
        x.is_nan() == (x.bits % 0x8000_0000 > 0x7F80_0000),
        x.is_nan() || y.is_nan() ==> !x.below(y) && !x.reaches(y),
        !x.is_nan() && !y.is_nan() ==> {
            &&& x.below(y) == (number_of(x.bits) < number_of(y.bits))
            &&& x.reaches(y) == (number_of(x.bits) >= number_of(y.bits))
        },
{
    lemma_larger_pattern((x.bits % 0x8000_0000) as int, (y.bits % 0x8000_0000) as int);
    lemma_larger_pattern((y.bits % 0x8000_0000) as int, (x.bits % 0x8000_0000) as int);
}

/// Without the sign, a larger pattern stands for a larger number, and zero for zero.
proof fn lemma_larger_pattern(a: int, b: int)
    requires
        0 <= a < 0x8000_0000,
        0 <= b < 0x8000_0000,
    ensures
        number_of(a as u32) >= 0,
        a > 0 ==> number_of(a as u32) > 0,
        a < b ==> number_of(a as u32) < number_of(b as u32),
{
    let (ea, fa) = (a / 0x80_0000, a % 0x80_0000);
    let (eb, fb) = (b / 0x80_0000, b % 0x80_0000);
    if ea > 0 {
        lemma_pow2_pos((ea - 1) as nat);
        let p = pow2((ea - 1) as nat) as int;
        assert((0x80_0000 + fa) * p > 0) by (nonlinear_arith)
            requires
                p > 0,
                fa >= 0,
        ;
        if ea == eb && fa < fb {
            assert((0x80_0000 + fa) * p < (0x80_0000 + fb) * p) by (nonlinear_arith)
                requires
                    p > 0,
                    fa < fb,
            ;
        }
        if ea < eb {
            let q = pow2((eb - 1) as nat) as int;
            lemma_pow2_unfold((ea - 1 + 1) as nat);
            assert(q >= 2 * p) by {
                if ea < eb - 1 {
                    lemma_pow2_strictly_increases(ea as nat, (eb - 1) as nat);
                }
            }
            assert((0x80_0000 + fa) * p < (0x80_0000 + fb) * q) by (nonlinear_arith)
                requires
                    p > 0,
                    q >= 2 * p,
                    0 <= fa < 0x80_0000,
                    0 <= fb,
            ;
        }
    } else if eb > 0 {
        let q = pow2((eb - 1) as nat) as int;
        lemma_pow2_pos((eb - 1) as nat);
        assert((0x80_0000 + fb) * q >= 0x80_0000) by (nonlinear_arith)
            requires
                q >= 1,
                0 <= fb,
        ;
    }
}

/// The level `n`, a whole number, in the units of `number_of`.
pub open spec fn whole(n: int) -> int {
    n * pow2(149)
}

/// The pattern of a positive fraction `num / den` rounded to the nearest level: among the multiples
/// of its last place none is closer.
pub open spec fn is_nearest(bits: u32, num: nat, den: nat) -> bool {
    let e = (bits / 0x80_0000) as int;
    let error = den * (0x80_0000 + bits % 0x80_0000) - num * pow2((150 - e) as nat);
    &&& 1 <= e < 150
    &&& -(den as int) <= 2 * error <= den
}

/// A pattern whose fraction, the leading one put back, is a whole number shifted left stands for
/// that number.
pub proof fn lemma_whole(bits: u32, n: int, k: nat)
    requires
        bits < 0x8000_0000 <==> n >= 0,
        (bits % 0x8000_0000) / 0x80_0000 >= 1,
        (bits % 0x8000_0000) / 0x80_0000 - 1 + k == 149,
        0x80_0000 + bits % 0x80_0000 == (if n < 0 {
            -n
        } else {
            n
        }) * pow2(k),
    ensures
        number_of(bits) == whole(n),
{
    let e = ((bits % 0x8000_0000) / 0x80_0000) as int;
    let p = pow2((e - 1) as nat) as int;
    let q = pow2(k) as int;
    let m = if n < 0 {
        -n
    } else {
        n
    };
    lemma_pow2_adds(k, (e - 1) as nat);
    assert((bits % 0x8000_0000) % 0x80_0000 == bits % 0x80_0000);
    assert((m * q) * p == m * (q * p)) by (nonlinear_arith);
    assert(n < 0 ==> -(m * pow2(149)) == n * pow2(149)) by (nonlinear_arith)
        requires
            n < 0 ==> m == -n,
    ;
}

} // verus!
