//! The spectrum display: frequency labels and grid.

use vstd::arithmetic::power2::*;
use vstd::prelude::*;
use vstd::string::*;

use crate::decimal;
use crate::level;
use crate::level::Level;
use crate::text;

verus! {

/// Precise label of the frequency under the pointer.
pub open spec fn cursor_text(hz: nat) -> Seq<char> {
    if hz >= 1_000_000_000 {
        decimal::quotient_text(hz, 1_000_000_000, 4) + " GHz"@
    } else if hz >= 1_000_000 {
        decimal::quotient_text(hz, 1_000_000, 3) + " MHz"@
    } else if hz >= 1_000 {
        decimal::quotient_text(hz, 1_000, 1) + " kHz"@
    } else {
        text::dec(hz) + " Hz"@
    }
}

pub fn format_freq_cursor(hz: u64) -> (r: String)
    ensures
        r@ == cursor_text(hz as nat),
{
    let mut s: String = String::new();
    if hz >= 1_000_000_000 {
        decimal::push_quotient(&mut s, hz, 1_000_000_000, 4);
        s.append(" GHz");
    } else if hz >= 1_000_000 {
        decimal::push_quotient(&mut s, hz, 1_000_000, 3);
        s.append(" MHz");
    } else if hz >= 1_000 {
        decimal::push_quotient(&mut s, hz, 1_000, 1);
        s.append(" kHz");
    } else {
        text::push_dec(&mut s, hz);
        s.append(" Hz");
    }
    assert(s@ =~= cursor_text(hz as nat));
    s
}

/// Short label of a frequency on the axis.
pub open spec fn short_text(hz: nat) -> Seq<char> {
    if hz >= 1_000_000_000 {
        decimal::quotient_text(hz, 1_000_000_000, 2) + "G"@
    } else if hz >= 1_000_000 {
        decimal::quotient_text(hz, 1_000_000, 2) + "M"@
    } else if hz >= 1_000 {
        decimal::quotient_text(hz, 1_000, 0) + "k"@
    } else {
        text::dec(hz)
    }
}

pub fn format_freq_short(hz: u64) -> (r: String)
    ensures
        r@ == short_text(hz as nat),
{
    let mut s: String = String::new();
    if hz >= 1_000_000_000 {
        decimal::push_quotient(&mut s, hz, 1_000_000_000, 2);
        s.append("G");
    } else if hz >= 1_000_000 {
        decimal::push_quotient(&mut s, hz, 1_000_000, 2);
        s.append("M");
    } else if hz >= 1_000 {
        decimal::push_quotient(&mut s, hz, 1_000, 0);
        s.append("k");
    } else {
        text::push_dec(&mut s, hz);
    }
    assert(s@ =~= short_text(hz as nat));
    s
}

// ── Grid ────────────────────────────────────────────────────────────────────

/// The largest power of ten that divides `span` into eight parts or more, at least 1.
pub open spec fn magnitude_from(span: nat, m: nat) -> nat
    decreases (if 8 * m <= span { span + 1 - 8 * m } else { 0 }),
{
    if m == 0 || 80 * m > span {
        m
    } else {
        magnitude_from(span, 10 * m)
    }
}

/// The step of the frequency grid: 1, 2 or 5 times a power of ten, about an eighth of the span.
pub open spec fn grid_step_spec(span: nat) -> nat {
    let m = magnitude_from(span, 1);
    if span >= 40 * m {
        5 * m
    } else if span >= 16 * m {
        2 * m
    } else {
        m
    }
}

pub fn grid_step(span: u64) -> (r: u64)
    ensures
        r == grid_step_spec(span as nat),
        r >= 1,
{
    let mut m: u64 = 1;
    while m <= span / 80
        invariant
            m >= 1,
            m == 1 || 8 * m <= span,
            magnitude_from(span as nat, 1) == magnitude_from(span as nat, m as nat),
        decreases span + 1 - m,
    {
        m = 10 * m;
    }
    assert(80 * m > span);
    if span / 40 >= m {
        5 * m
    } else if span / 16 >= m {
        2 * m
    } else {
        m
    }
}

/// The grid step goes at least 8 and fewer than 20 times into a span of 8 Hz or more.
pub proof fn law_grid_is_readable(span: nat)
    requires
        span >= 8,
    ensures
        8 * grid_step_spec(span) <= span,
        span < 20 * grid_step_spec(span),
{
    lemma_magnitude(span, 1);
}

proof fn lemma_magnitude(span: nat, m: nat)
    requires
        m >= 1,
        8 * m <= span,
    ensures
        8 * magnitude_from(span, m) <= span < 80 * magnitude_from(span, m),
        magnitude_from(span, m) >= 1,
    decreases (if 8 * m <= span { span + 1 - 8 * m } else { 0 }),
{
    if 80 * m <= span {
        lemma_magnitude(span, 10 * m);
    }
}

/// A grid line: its number, counted in steps from 0 Hz.
pub struct GridLine {
    pub n: u64,
    pub freq_hz: u64,
    /// Every fifth line.
    pub major: bool,
    /// Shown with its frequency.
    pub labelled: bool,
}

/// Number of the first line at or below `lo`.
pub open spec fn first_line(lo: nat, step: nat) -> nat {
    lo / step
}

/// Number of the first line at or above `hi`.
pub open spec fn last_line(hi: nat, step: nat) -> nat {
    if hi % step == 0 {
        hi / step
    } else {
        hi / step + 1
    }
}

pub open spec fn is_grid_line(g: GridLine, lo: nat, hi: nat, step: nat) -> bool {
    &&& g.freq_hz == g.n * step
    &&& lo <= g.freq_hz <= hi
    &&& g.major == (g.n % 5 == 0)
    &&& g.labelled == (g.major || g.n == first_line(lo, step) || g.n == last_line(hi, step))
}

/// The grid lines between `lo` and `hi`: all multiples of the step, in ascending order.
pub open spec fn is_grid(v: Seq<GridLine>, lo: nat, hi: nat, step: nat) -> bool {
    &&& forall|i: int| 0 <= i < v.len() ==> is_grid_line(#[trigger] v[i], lo, hi, step)
    &&& forall|i: int, j: int|
        0 <= i < j < v.len() ==> (#[trigger] v[i]).n < (#[trigger] v[j]).n
    &&& forall|k: nat| #[trigger] is_between(k, lo, hi, step) ==> has_line(v, k)
}

pub open spec fn is_between(k: nat, lo: nat, hi: nat, step: nat) -> bool {
    lo <= k * step <= hi
}

pub open spec fn has_line(v: Seq<GridLine>, k: nat) -> bool {
    exists|i: int| 0 <= i < v.len() && (#[trigger] v[i]).n == k
}

/// The grid lines of a view from `lo` to `hi`.
pub fn grid_lines(lo: u64, hi: u64, step: u64) -> (v: Vec<GridLine>)
    requires
        step >= 1,
        lo <= hi,
    ensures
        is_grid(v@, lo as nat, hi as nat, step as nat),
{
    let first: u64 = lo / step;
    let last: u128 = if hi % step == 0 {
        (hi / step) as u128
    } else {
        (hi / step) as u128 + 1
    };
    let start: u128 = if lo % step == 0 {
        first as u128
    } else {
        first as u128 + 1
    };
    let end: u64 = hi / step;
    let mut v: Vec<GridLine> = Vec::new();
    let mut n: u128 = start;
    proof {
        vstd::arithmetic::div_mod::lemma_fundamental_div_mod(lo as int, step as int);
        vstd::arithmetic::div_mod::lemma_fundamental_div_mod(hi as int, step as int);
        assert(step * first == first * step) by (nonlinear_arith);
        assert(step * end == end * step) by (nonlinear_arith);
        assert(start * step >= lo) by (nonlinear_arith)
            requires
                lo == first * step + lo % step,
                0 <= lo % step < step,
                start == (if lo % step == 0 {
                    first as int
                } else {
                    first + 1
                }),
        ;
        assert forall|k: nat| k < start implies !#[trigger] is_between(
            k,
            lo as nat,
            hi as nat,
            step as nat,
        ) by {
            assert(k * step < lo) by (nonlinear_arith)
                requires
                    k < start,
                    lo == first * step + lo % step,
                    start == (if lo % step == 0 {
                        first as int
                    } else {
                        first + 1
                    }),
                    0 <= lo % step,
                    lo % step != 0 ==> lo % step > 0,
                    step >= 1,
            ;
        }
    }
    while n <= end as u128
        invariant
            step >= 1,
            start <= n,
            n <= end + 1 || n == start,
            first == lo / step,
            end == hi / step,
            end * step <= hi,
            start * step >= lo,
            last == last_line(hi as nat, step as nat),
            forall|i: int|
                0 <= i < v@.len() ==> is_grid_line(
                    #[trigger] v@[i],
                    lo as nat,
                    hi as nat,
                    step as nat,
                ) && v@[i].n < n,
            forall|i: int, j: int|
                0 <= i < j < v@.len() ==> (#[trigger] v@[i]).n < (#[trigger] v@[j]).n,
            forall|k: nat|
                k < n && #[trigger] is_between(k, lo as nat, hi as nat, step as nat) ==> has_line(
                    v@,
                    k,
                ),
        decreases end + 1 - n,
    {
        let ghost before = v@;
        let k: u64 = n as u64;
        proof {
            assert(k * step <= end * step) by (nonlinear_arith)
                requires
                    k <= end,
                    step >= 1,
            ;
            assert(k * step >= start * step) by (nonlinear_arith)
                requires
                    k >= start,
                    step >= 1,
            ;
        }
        let major: bool = k % 5 == 0;
        v.push(
            GridLine {
                n: k,
                freq_hz: k * step,
                major,
                labelled: major || k == first || n == last,
            },
        );
        proof {
            assert forall|m: nat|
                m < n + 1 && #[trigger] is_between(
                    m,
                    lo as nat,
                    hi as nat,
                    step as nat,
                ) implies has_line(v@, m) by {
                if m < n {
                    assert(has_line(before, m));
                    let i = choose|i: int| 0 <= i < before.len() && (#[trigger] before[i]).n == m;
                    assert(v@[i].n == m);
                } else {
                    assert(v@[v@.len() - 1].n == m);
                }
            }
        }
        n += 1;
    }
    proof {
        assert forall|k: nat| #[trigger]
            is_between(k, lo as nat, hi as nat, step as nat) implies has_line(v@, k) by {
            assert(k <= end) by (nonlinear_arith)
                requires
                    k * step <= hi,
                    hi == end * step + hi % step,
                    0 <= hi % step < step,
            ;
        }
    }
    v
}

/// Whether a mark stands less than a tenth of a step from the tuned frequency.
pub open spec fn mark_is_vfo_spec(mark_hz: u64, vfo_hz: u64, step: u64) -> bool {
    10 * (if mark_hz < vfo_hz {
        vfo_hz - mark_hz
    } else {
        mark_hz - vfo_hz
    }) < step
}

/// Whether a tuning-step mark stands at the tuned frequency: less than a tenth of a step away.
pub fn mark_is_vfo(mark_hz: u64, vfo_hz: u64, step: u64) -> (r: bool)
    ensures
        r == mark_is_vfo_spec(mark_hz, vfo_hz, step),
{
    let d: u64 = if mark_hz < vfo_hz {
        vfo_hz - mark_hz
    } else {
        mark_hz - vfo_hz
    };
    10 * (d as u128) < step as u128
}

/// The place of a frequency in a view.
pub open spec fn place_in_view_spec(hz: u64, lo: u64, hi: u64) -> Option<(u64, u64)> {
    if hi <= lo {
        None
    } else if hz < lo {
        Some((0u64, (hi - lo) as u64))
    } else if hz > hi {
        Some(((hi - lo) as u64, (hi - lo) as u64))
    } else {
        Some(((hz - lo) as u64, (hi - lo) as u64))
    }
}

/// The place of a frequency in the view from `lo` to `hi`, as an offset and the width that it is
/// an offset in; a frequency outside the view is shown at its edge. An empty view has no places.
pub fn place_in_view(hz: u64, lo: u64, hi: u64) -> (r: Option<(u64, u64)>)
    ensures
        r == place_in_view_spec(hz, lo, hi),
{
    if hi <= lo {
        None
    } else if hz < lo {
        Some((0, hi - lo))
    } else if hz > hi {
        Some((hi - lo, hi - lo))
    } else {
        Some((hz - lo, hi - lo))
    }
}

/// Whether the peak-hold line is drawn.
pub open spec fn hold_is_drawn_spec(held: Option<usize>, bins: usize) -> bool {
    bins > 1 && held == Some(bins)
}

/// Whether the peak-hold line is drawn over a trace of `bins` bins: it is held, and for as many
/// bins as the trace has, of which there are two at least.
pub fn hold_is_drawn(held: Option<usize>, bins: usize) -> (r: bool)
    ensures
        r == hold_is_drawn_spec(held, bins),
{
    match held {
        Some(n) => bins > 1 && n == bins,
        None => false,
    }
}

/// Whether part of a band lies in a view.
pub open spec fn band_in_view_spec(start: u64, end: u64, lo: u64, hi: u64) -> bool {
    end > lo && start < hi
}

/// Whether part of a band from `start` to `end` lies in the view from `lo` to `hi`.
pub fn band_in_view(start: u64, end: u64, lo: u64, hi: u64) -> (r: bool)
    ensures
        r == band_in_view_spec(start, end, lo, hi),
{
    end > lo && start < hi
}

/// The marked frequencies that lie in a view.
pub open spec fn marks_in_view_spec(marks: Seq<u64>, lo: u64, hi: u64) -> Seq<u64> {
    marks.filter(|hz: u64| lo <= hz <= hi)
}

/// The marked frequencies that lie in the view from `lo` to `hi`.
pub fn marks_in_view(marks: &Vec<u64>, lo: u64, hi: u64) -> (v: Vec<u64>)
    ensures
        v@ == marks_in_view_spec(marks@, lo, hi),
{
    let ghost inside = |hz: u64| lo <= hz <= hi;
    let mut v: Vec<u64> = Vec::new();
    let mut i: usize = 0;
    assert(marks@.take(0) =~= Seq::<u64>::empty());
    while i < marks.len()
        invariant
            i <= marks.len(),
            inside == (|hz: u64| lo <= hz <= hi),
            v@ == marks@.take(i as int).filter(inside),
        decreases marks.len() - i,
    {
        proof {
            assert(marks@.take(i + 1).drop_last() =~= marks@.take(i as int));
            reveal(Seq::filter);
        }
        if lo <= marks[i] && marks[i] <= hi {
            v.push(marks[i]);
        }
        i += 1;
    }
    assert(marks@.take(marks@.len() as int) =~= marks@);
    v
}

// ── Power grid ──────────────────────────────────────────────────────────────

/// 40.0
pub const NARROW_RANGE_BITS: u32 = 0x4220_0000;

/// 100.0
pub const NORMAL_RANGE_BITS: u32 = 0x42C8_0000;

/// Distance of the lines of the power grid in decibels.
pub open spec fn db_step_spec(range: Level) -> i32 {
    if level::of(NARROW_RANGE_BITS).reaches(range) {
        5i32
    } else if level::of(NORMAL_RANGE_BITS).reaches(range) {
        10
    } else {
        20
    }
}

/// Distance of the lines of the power grid in dB: closer for a narrow range.
pub fn db_step(range: Level) -> (r: i32)
    ensures
        r == db_step_spec(range),
{
    if level::of(NARROW_RANGE_BITS).ge(range) {
        5
    } else if level::of(NORMAL_RANGE_BITS).ge(range) {
        10
    } else {
        20
    }
}

/// A line of the power grid.
#[derive(Clone, Copy, PartialEq, Eq, Structural, Debug)]
pub struct DbLine {
    pub db: i32,
    /// A multiple of 20 dB.
    pub major: bool,
}

/// `v` holds the lines number `first` to `last` of a grid of `step` decibels.
pub open spec fn are_db_lines(v: Seq<DbLine>, step: i32, first: i32, last: i32) -> bool {
    &&& v.len() == (if last < first {
        0int
    } else {
        last - first + 1
    })
    &&& forall|i: int|
        0 <= i < v.len() ==> (#[trigger] v[i]) == (DbLine {
            db: ((first + i) * step) as i32,
            major: ((first + i) * step) % 20 == 0,
        })
}

/// The lines number `first` to `last` of the power grid.
pub fn db_lines(step: i32, first: i32, last: i32) -> (v: Vec<DbLine>)
    requires
        1 <= step <= 20,
        -100_000_000 <= first,
        last <= 100_000_000,
    ensures
        are_db_lines(v@, step, first, last),
{
    let mut v: Vec<DbLine> = Vec::new();
    let mut k: i32 = first;
    while k <= last
        invariant
            1 <= step <= 20,
            -100_000_000 <= first <= k,
            last <= 100_000_000,
            k <= last + 1 || k == first,
            v@.len() == k - first,
            forall|i: int|
                0 <= i < v@.len() ==> (#[trigger] v@[i]) == (DbLine {
                    db: ((first + i) * step) as i32,
                    major: ((first + i) * step) % 20 == 0,
                }),
        decreases last + 1 - k,
    {
        assert(-2_000_000_000 <= k * step <= 2_000_000_000) by (nonlinear_arith)
            requires
                -100_000_000 <= k <= 100_000_000,
                1 <= step <= 20,
        ;
        let db: i32 = k * step;
        let rest: i64 = if db < 0 {
            -(db as i64) % 20
        } else {
            db as i64 % 20
        };
        v.push(DbLine { db, major: rest == 0 });
        k += 1;
    }
    v
}

// ── Trace ───────────────────────────────────────────────────────────────────

/// The corners of the two triangles that fill the trace between points `i` and `i + 1`. Corner
/// `2 i` is on the trace at point `i`, corner `2 i + 1` below it on the axis.
pub open spec fn fill_corners(i: int) -> Seq<u32> {
    seq![
        (2 * i) as u32,
        (2 * i + 1) as u32,
        (2 * i + 2) as u32,
        (2 * i + 1) as u32,
        (2 * i + 3) as u32,
        (2 * i + 2) as u32,
    ]
}

/// The corners of all triangles under a trace of `n` points.
pub fn trace_fill(n: usize) -> (v: Vec<u32>)
    requires
        n <= 0x7FFF_FFFF,
    ensures
        v@.len() == (if n == 0 {
            0int
        } else {
            6 * (n - 1)
        }),
        forall|i: int|
            0 <= i < n - 1 ==> v@.subrange(6 * i, 6 * i + 6) == #[trigger] fill_corners(i),
{
    let mut v: Vec<u32> = Vec::new();
    let mut i: usize = 1;
    while i < n
        invariant
            1 <= i,
            i <= n || n == 0 && i == 1,
            n <= 0x7FFF_FFFF,
            v@.len() == 6 * (i - 1),
            forall|k: int|
                0 <= k < i - 1 ==> v@.subrange(6 * k, 6 * k + 6) == #[trigger] fill_corners(k),
        decreases n - i,
    {
        let ghost before = v@;
        let b: u32 = (i as u32) * 2;
        v.push(b - 2);
        v.push(b - 1);
        v.push(b);
        v.push(b - 1);
        v.push(b + 1);
        v.push(b);
        proof {
            assert forall|k: int| 0 <= k < i implies v@.subrange(6 * k, 6 * k + 6)
                == #[trigger] fill_corners(k) by {
                if k < i - 1 {
                    assert(before.subrange(6 * k, 6 * k + 6) == fill_corners(k));
                    assert(v@.subrange(6 * k, 6 * k + 6) =~= before.subrange(6 * k, 6 * k + 6));
                } else {
                    assert(v@.subrange(6 * k, 6 * k + 6) =~= fill_corners(k));
                }
            }
        }
        i += 1;
    }
    v
}

// ── Laws ────────────────────────────────────────────────────────────────────

/// Labels carry the largest unit that leaves at least one before the point, and show whole units
/// exactly: with four, three or one decimals under the pointer, with two or none on the axis.
pub proof fn law_frequency_labels(n: nat)
    requires
        0 < n < 1_000,
    ensures
        cursor_text(n) == text::dec(n) + " Hz"@,
        cursor_text(n * 1_000) == text::dec(n) + ".0 kHz"@,
        cursor_text(n * 1_000_000) == text::dec(n) + ".000 MHz"@,
        cursor_text(n * 1_000_000_000) == text::dec(n) + ".0000 GHz"@,
        short_text(n) == text::dec(n),
        short_text(n * 1_000) == text::dec(n) + "k"@,
        short_text(n * 1_000_000) == text::dec(n) + ".00M"@,
        short_text(n * 1_000_000_000) == text::dec(n) + ".00G"@,
{
    decimal::law_whole_quotient(n, 1_000, 1);
    decimal::law_whole_quotient(n, 1_000_000, 3);
    decimal::law_whole_quotient(n, 1_000_000_000, 4);
    decimal::law_whole_quotient(n, 1_000, 0);
    decimal::law_whole_quotient(n, 1_000_000, 2);
    decimal::law_whole_quotient(n, 1_000_000_000, 2);
    lemma_zeros();
    reveal_strlit(" kHz");
    reveal_strlit(" MHz");
    reveal_strlit(" GHz");
    reveal_strlit("M");
    reveal_strlit("G");
    reveal_strlit(".0 kHz");
    reveal_strlit(".000 MHz");
    reveal_strlit(".0000 GHz");
    reveal_strlit(".00M");
    reveal_strlit(".00G");
    assert(cursor_text(n * 1_000) =~= text::dec(n) + ".0 kHz"@);
    assert(cursor_text(n * 1_000_000) =~= text::dec(n) + ".000 MHz"@);
    assert(cursor_text(n * 1_000_000_000) =~= text::dec(n) + ".0000 GHz"@);
    assert(short_text(n * 1_000_000) =~= text::dec(n) + ".00M"@);
    assert(short_text(n * 1_000_000_000) =~= text::dec(n) + ".00G"@);
}

proof fn lemma_zeros()
    ensures
        text::dec_fixed(0, 1) == seq!['0'],
        text::dec_fixed(0, 2) == seq!['0', '0'],
        text::dec_fixed(0, 3) == seq!['0', '0', '0'],
        text::dec_fixed(0, 4) == seq!['0', '0', '0', '0'],
{
    reveal_with_fuel(text::dec_fixed, 5);
    assert(text::dec_fixed(0, 1) =~= seq!['0']);
    assert(text::dec_fixed(0, 2) =~= seq!['0', '0']);
    assert(text::dec_fixed(0, 3) =~= seq!['0', '0', '0']);
    assert(text::dec_fixed(0, 4) =~= seq!['0', '0', '0', '0']);
}

/// A number written with one digit other than zero: 1, 2 or 5 and zeros behind it.
pub open spec fn is_round(n: nat) -> bool
    decreases n,
{
    n == 1 || n == 2 || n == 5 || (n >= 10 && n % 10 == 0 && is_round(n / 10))
}

/// The step of the frequency grid is a round number: 1, 2 or 5 with zeros behind it.
pub proof fn law_grid_step_is_round(span: nat)
    ensures
        is_round(grid_step_spec(span)),
{
    lemma_magnitude_is_power(span, 1, 0);
    let m = magnitude_from(span, 1);
    let k = choose|k: nat| m == decimal::pow10(k);
    lemma_round_numbers(k);
}

proof fn lemma_round_numbers(k: nat)
    ensures
        is_round(decimal::pow10(k)),
        is_round(2 * decimal::pow10(k)),
        is_round(5 * decimal::pow10(k)),
        decimal::pow10(k) >= 1,
    decreases k,
{
    if k > 0 {
        lemma_round_numbers((k - 1) as nat);
        let p = decimal::pow10((k - 1) as nat);
        assert((10 * p) / 10 == p && (2 * (10 * p)) / 10 == 2 * p && (5 * (10 * p)) / 10 == 5 * p);
    }
}

proof fn lemma_magnitude_is_power(span: nat, m: nat, k: nat)
    requires
        m == decimal::pow10(k),
    ensures
        exists|j: nat| magnitude_from(span, m) == #[trigger] decimal::pow10(j),
    decreases (if 8 * m <= span { span + 1 - 8 * m } else { 0 }),
{
    lemma_round_numbers(k);
    if m == 0 || 80 * m > span {
        assert(magnitude_from(span, m) == decimal::pow10(k));
    } else {
        assert(decimal::pow10(k + 1) == 10 * m);
        lemma_magnitude_is_power(span, 10 * m, k + 1);
    }
}

/// The grid has a line at every multiple of the step in the view and at no other frequency, in
/// ascending order. Every fifth is a main line; the main lines are labelled, and so are lines on the
/// edges of the view.
pub proof fn law_grid_lines(v: Seq<GridLine>, lo: nat, hi: nat, step: nat, k: nat)
    requires
        step >= 1,
        is_grid(v, lo, hi, step),
    ensures
        lo <= k * step <= hi ==> exists|i: int|
            0 <= i < v.len() && (#[trigger] v[i]).freq_hz == k * step,
        forall|i: int|
            0 <= i < v.len() ==> {
                &&& lo <= (#[trigger] v[i]).freq_hz <= hi
                &&& v[i].freq_hz == v[i].n * step
                &&& v[i].major <==> v[i].n % 5 == 0
                &&& v[i].labelled <==> v[i].major || v[i].freq_hz == lo || v[i].freq_hz == hi
            },
        forall|i: int, j: int|
            0 <= i < j < v.len() ==> (#[trigger] v[i]).freq_hz < (#[trigger] v[j]).freq_hz,
{
    assert forall|i: int| 0 <= i < v.len() implies ((#[trigger] v[i]).labelled <==> v[i].major
        || v[i].freq_hz == lo || v[i].freq_hz == hi) by {
        assert(is_grid_line(v[i], lo, hi, step));
        lemma_edge_lines(v[i].n as nat, lo, hi, step);
    }
    if lo <= k * step <= hi {
        assert(is_between(k, lo, hi, step));
        assert(has_line(v, k));
        let i = choose|i: int| 0 <= i < v.len() && (#[trigger] v[i]).n == k;
        assert(is_grid_line(v[i], lo, hi, step));
    }
    assert forall|i: int, j: int| 0 <= i < j < v.len() implies (#[trigger] v[i]).freq_hz < (
    #[trigger] v[j]).freq_hz by {
        assert(is_grid_line(v[i], lo, hi, step) && is_grid_line(v[j], lo, hi, step));
        let a = v[i].n as int;
        let b = v[j].n as int;
        assert(a * step < b * step) by (nonlinear_arith)
            requires
                a < b,
                step >= 1,
        ;
    }
}

/// The first and the last line number of a view belong to lines in it only on its edges.
proof fn lemma_edge_lines(n: nat, lo: nat, hi: nat, step: nat)
    requires
        step >= 1,
        lo <= n * step <= hi,
    ensures
        n == first_line(lo, step) <==> n * step == lo,
        n == last_line(hi, step) <==> n * step == hi,
{
    vstd::arithmetic::div_mod::lemma_fundamental_div_mod(lo as int, step as int);
    vstd::arithmetic::div_mod::lemma_fundamental_div_mod(hi as int, step as int);
    let q = lo / step;
    let r = hi / step;
    assert(step * q == q * step && step * r == r * step) by (nonlinear_arith);
    assert((r + 1) * step == r * step + step) by (nonlinear_arith);
    if n * step == lo {
        vstd::arithmetic::div_mod::lemma_div_multiples_vanish(n as int, step as int);
        assert(step * n == n * step) by (nonlinear_arith);
    }
    if n * step == hi {
        vstd::arithmetic::div_mod::lemma_div_multiples_vanish(n as int, step as int);
        vstd::arithmetic::div_mod::lemma_mod_multiples_basic(n as int, step as int);
        assert(step * n == n * step) by (nonlinear_arith);
    }
}

/// A frequency in the view is placed as far from its left edge as it lies above the lowest one, one
/// outside at the nearer edge; the width is that of the view.
pub proof fn law_place_in_view(hz: u64, lo: u64, hi: u64)
    requires
        lo < hi,
    ensures
        place_in_view_spec(hz, lo, hi) is Some,
        (place_in_view_spec(hz, lo, hi)->0).1 == hi - lo,
        lo <= hz <= hi ==> (place_in_view_spec(hz, lo, hi)->0).0 == hz - lo,
        hz < lo ==> (place_in_view_spec(hz, lo, hi)->0).0 == 0,
        hz > hi ==> (place_in_view_spec(hz, lo, hi)->0).0 == hi - lo,
        place_in_view_spec(hz, hi, lo) is None,
{
}

/// A band is in view exactly when the two have more than an edge in common.
pub proof fn law_band_in_view(start: u64, end: u64, lo: u64, hi: u64)
    requires
        start < end,
        lo < hi,
    ensures
        band_in_view_spec(start, end, lo, hi) <==> exists|x: int|
            start <= x < end && #[trigger] in_range(x, lo as int, hi as int),
{
    if band_in_view_spec(start, end, lo, hi) {
        let x = if start < lo {
            lo as int
        } else {
            start as int
        };
        assert(in_range(x, lo as int, hi as int));
    }
}

pub open spec fn in_range(x: int, lo: int, hi: int) -> bool {
    lo <= x < hi
}

/// The marks in view are those of the given ones that lie between its edges, the edges among them.
pub proof fn law_marks_in_view(marks: Seq<u64>, lo: u64, hi: u64, hz: u64)
    ensures
        marks_in_view_spec(marks, lo, hi).contains(hz) <==> marks.contains(hz) && lo <= hz && hz
            <= hi,
        marks_in_view_spec(marks, lo, hi).len() <= marks.len(),
    decreases marks.len(),
{
    reveal(Seq::filter);
    if marks.len() > 0 {
        let rest = marks.drop_last();
        law_marks_in_view(rest, lo, hi, hz);
        let kept = marks_in_view_spec(rest, lo, hi);
        let all = marks_in_view_spec(marks, lo, hi);
        assert(all =~= (if lo <= marks.last() <= hi {
            kept.push(marks.last())
        } else {
            kept
        }));
        if kept.contains(hz) {
            let i = choose|i: int| 0 <= i < kept.len() && kept[i] == hz;
            assert(all[i] == hz);
        }
        if rest.contains(hz) {
            let i = choose|i: int| 0 <= i < rest.len() && rest[i] == hz;
            assert(marks[i] == hz);
        }
        if marks.last() == hz {
            assert(marks[marks.len() - 1] == hz);
            if lo <= hz <= hi {
                assert(all[all.len() - 1] == hz);
            }
        }
        if all.contains(hz) {
            let i = choose|i: int| 0 <= i < all.len() && all[i] == hz;
            if i < kept.len() {
                assert(kept[i] == hz);
            }
        }
        if marks.contains(hz) {
            let i = choose|i: int| 0 <= i < marks.len() && marks[i] == hz;
            if i < rest.len() {
                assert(rest[i] == hz);
            }
        }
    }
}

/// The lines of the power grid are 5 dB apart over up to 40 dB, 10 dB over up to 100 dB, and 20 dB
/// beyond.
pub proof fn law_power_grid(range: Level)
    requires
        !range.is_nan(),
    ensures
        ({
            let db = level::number_of(range.bits);
            &&& db <= level::whole(40) ==> db_step_spec(range) == 5
            &&& level::whole(40) < db <= level::whole(100) ==> db_step_spec(range) == 10
            &&& level::whole(100) < db ==> db_step_spec(range) == 20
        }),
{
    lemma2_to64();
    lemma_pow2_pos(149);
    level::lemma_whole(0x4220_0000, 40, 18);
    level::lemma_whole(0x42C8_0000, 100, 17);
    level::law_order_is_numeric(level::of(0x4220_0000), range);
    level::law_order_is_numeric(level::of(0x42C8_0000), range);
}

/// The tuned frequency is marked within less than a tenth of a step on either side.
pub proof fn law_mark_at_the_tuned_frequency(mark: u64, vfo: u64, step: u64)
    ensures
        mark_is_vfo_spec(mark, vfo, step) <==> 10 * (mark - vfo) < step && 10 * (vfo - mark)
            < step,
        step > 0 ==> mark_is_vfo_spec(vfo, vfo, step),
        mark_is_vfo_spec(mark, vfo, step) == mark_is_vfo_spec(vfo, mark, step),
{
}

/// The peak-hold line is drawn when a level is held for every bin of a trace of two bins or more.
pub proof fn law_hold_line(bins: usize, held: usize)
    ensures
        hold_is_drawn_spec(Some(held), bins) <==> held == bins && bins >= 2,
        !hold_is_drawn_spec(None, bins),
{
}

/// The fill of a trace joins the points on it to those below: of each piece both triangles touch the
/// axis and the trace, and the corners of the next piece follow two behind.
pub proof fn law_fill_joins_neighbours(i: int)
    requires
        0 <= i < 0x4000_0000,
    ensures
        fill_corners(i).len() == 6,
        forall|k: int| 0 <= k < 6 ==> 2 * i <= #[trigger] fill_corners(i)[k] <= 2 * i + 3,
        forall|c: u32|
            2 * i <= c <= 2 * i + 3 ==> #[trigger] fill_corners(i).contains(c),
        fill_corners(i)[1] == fill_corners(i)[3] && fill_corners(i)[2] == fill_corners(i)[5],
        forall|k: int|
            0 <= k < 6 && i < 0x3FFF_FFFF ==> #[trigger] fill_corners(i + 1)[k] == fill_corners(
                i,
            )[k] + 2,
{
    let f = fill_corners(i);
    assert(f[0] == 2 * i && f[1] == 2 * i + 1 && f[2] == 2 * i + 2 && f[4] == 2 * i + 3);
    assert forall|c: u32| 2 * i <= c <= 2 * i + 3 implies #[trigger] f.contains(c) by {
        let k: int = if c == 2 * i + 3 {
            4
        } else {
            c - 2 * i
        };
        assert(f[k] == c);
    }
}

/// The lines of the power grid stand at the multiples of the step from the first to the last asked
/// for, one step apart, and those at multiples of 20 dB are the main ones.
pub proof fn law_power_lines(v: Seq<DbLine>, step: i32, first: i32, last: i32, k: int)
    requires
        are_db_lines(v, step, first, last),
        1 <= step <= 20,
        -100_000_000 <= first <= k <= last <= 100_000_000,
    ensures
        ({
            let line = v[k - first];
            &&& line.db == k * step
            &&& line.major <==> line.db as int % 20 == 0
        }),
        k < last ==> v[k + 1 - first].db - v[k - first].db == step,
        v.len() == last - first + 1,
{
    assert(v[k - first].db == ((first + (k - first)) * step) as i32);
    assert(-2_000_000_000 <= k * step <= 2_000_000_000) by (nonlinear_arith)
        requires
            -100_000_000 <= k <= 100_000_000,
            1 <= step <= 20,
    ;
    if k < last {
        assert(v[k + 1 - first].db == ((first + (k + 1 - first)) * step) as i32);
        assert((k + 1) * step == k * step + step) by (nonlinear_arith);
        assert(-2_000_000_000 <= (k + 1) * step <= 2_000_000_000) by (nonlinear_arith)
            requires
                -100_000_000 <= k + 1 <= 100_000_000,
                1 <= step <= 20,
        ;
    }
}

} // verus!
