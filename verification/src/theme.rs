//! Colours of the application and the colour ramps built from them.

use vstd::arithmetic::power2::*;
use vstd::prelude::*;

use crate::single;
use crate::single::Single;

verus! {

/// A colour with premultiplied alpha, eight bits per channel.
#[derive(Clone, Copy, PartialEq, Eq, Structural, Debug)]
pub struct Color {
    pub r: u8,
    pub g: u8,
    pub b: u8,
    pub a: u8,
}

/// The opaque colour `0xRRGGBB`.
#[verifier::allow_in_spec]
pub fn rgb(hex: u32) -> Color
    returns
        (Color {
            r: ((hex / 0x1_0000) % 0x100) as u8,
            g: ((hex / 0x100) % 0x100) as u8,
            b: (hex % 0x100) as u8,
            a: 255,
        }),
{
    Color {
        r: ((hex / 0x1_0000) % 0x100) as u8,
        g: ((hex / 0x100) % 0x100) as u8,
        b: (hex % 0x100) as u8,
        a: 255,
    }
}

/// The premultiplied colour `0xRRGGBBAA`.
#[verifier::allow_in_spec]
pub fn rgba(hex: u32) -> Color
    returns
        (Color {
            r: (hex / 0x100_0000) as u8,
            g: ((hex / 0x1_0000) % 0x100) as u8,
            b: ((hex / 0x100) % 0x100) as u8,
            a: (hex % 0x100) as u8,
        }),
{
    Color {
        r: (hex / 0x100_0000) as u8,
        g: ((hex / 0x1_0000) % 0x100) as u8,
        b: ((hex / 0x100) % 0x100) as u8,
        a: (hex % 0x100) as u8,
    }
}

impl Color {
    #[verifier::allow_in_spec]
    pub fn from_rgb(r: u8, g: u8, b: u8) -> Color
        returns
            (Color { r, g, b, a: 255 }),
    {
        Color { r, g, b, a: 255 }
    }

    #[verifier::allow_in_spec]
    pub fn r(&self) -> u8
        returns
            self.r,
    {
        self.r
    }

    #[verifier::allow_in_spec]
    pub fn g(&self) -> u8
        returns
            self.g,
    {
        self.g
    }

    #[verifier::allow_in_spec]
    pub fn b(&self) -> u8
        returns
            self.b,
    {
        self.b
    }

    #[verifier::allow_in_spec]
    pub fn a(&self) -> u8
        returns
            self.a,
    {
        self.a
    }
}

// ── Background / panel ──────────────────────────────────────────────────────

/// Main window background, deep navy-black.
pub const BG: u32 = 0x0A0D14;

/// Panel backgrounds.
pub const PANEL_BG: u32 = 0x10141E;

/// Slightly lighter inset surfaces (collapsible headers, hover).
pub const SURFACE: u32 = 0x161C2A;

/// Widget fill at rest.
pub const WIDGET_BG: u32 = 0x1C2436;

/// Widget fill on hover.
pub const WIDGET_HOVER: u32 = 0x263248;

/// Widget fill when pressed.
pub const WIDGET_ACTIVE: u32 = 0x30415F;

// ── Borders / separators ────────────────────────────────────────────────────

/// Subtle panel border.
pub const BORDER: u32 = 0x232D41;

/// Stronger separator line.
pub const SEPARATOR: u32 = 0x2D3A52;

// ── Text ────────────────────────────────────────────────────────────────────

/// Primary text, light blue-white.
pub const TEXT_PRIMARY: u32 = 0xD2E1F5;

/// Secondary text.
pub const TEXT_MUTED: u32 = 0x788CAF;

/// Disabled text.
pub const TEXT_DISABLED: u32 = 0x41506E;

// ── Accents ─────────────────────────────────────────────────────────────────

/// Primary accent, electric cyan (tuning, VFO line, links).
pub const ACCENT: u32 = 0x00D2FF;

/// Accent dimmed (axis labels, minor grid).
pub const ACCENT_DIM: u32 = 0x0078A0;

/// Secondary accent, warm amber (recording, warnings).
pub const AMBER: u32 = 0xFFBE28;

/// Danger, vivid red.
pub const DANGER: u32 = 0xF03C3C;

// ── Signal / spectrum ───────────────────────────────────────────────────────

/// Spectrum trace, cyan-green.
pub const SPECTRUM_TRACE: u32 = 0x28DCB4;

/// Spectrum trace fill, premultiplied `0xRRGGBBAA`.
pub const SPECTRUM_FILL: u32 = 0x148C6E50;

/// Spectrum grid lines.
pub const SPECTRUM_GRID: u32 = 0x1C2837;

/// VFO centre line.
pub const VFO_LINE: u32 = ACCENT;

// ── Status ──────────────────────────────────────────────────────────────────

/// Running, connected, healthy.
pub const STATUS_OK: u32 = 0x32DC50;

/// Degraded.
pub const STATUS_WARN: u32 = AMBER;

/// Stopped, disconnected.
pub const STATUS_ERROR: u32 = DANGER;

// ── VU meter ────────────────────────────────────────────────────────────────

/// Safe range.
pub const VU_LOW: u32 = 0x1EC850;

/// Middle range.
pub const VU_MID: u32 = 0xDCBE1E;

/// Clip range.
pub const VU_HIGH: u32 = 0xF03232;

// ── MIDI pages ──────────────────────────────────────────────────────────────

/// Page 0, tune.
pub const MIDI_PAGE_0: u32 = 0x50B4FF;

/// Page 1, monitor.
pub const MIDI_PAGE_1: u32 = 0x50DC96;

/// Page 2, recorder.
pub const MIDI_PAGE_2: u32 = 0xFF8C3C;

/// The accent colour of a MIDI page; the three colours repeat.
pub open spec fn page_color(page: int) -> Color {
    if page % 3 == 0 {
        rgb(MIDI_PAGE_0)
    } else if page % 3 == 1 {
        rgb(MIDI_PAGE_1)
    } else {
        rgb(MIDI_PAGE_2)
    }
}

pub fn midi_page_color(page: usize) -> (c: Color)
    ensures
        c == page_color(page as int),
{
    match page % 3 {
        0 => rgb(MIDI_PAGE_0),
        1 => rgb(MIDI_PAGE_1),
        _ => rgb(MIDI_PAGE_2),
    }
}

// ── Interpolation ───────────────────────────────────────────────────────────

/// `x` limited to `[0, 1]`.
pub open spec fn clamped_unit(x: (int, nat)) -> (int, nat) {
    if single::less(x, (0, 0)) {
        (0, 0)
    } else if single::less((1, 0), x) {
        (1, 0)
    } else {
        x
    }
}

/// A value cut to a byte: negative values give 0, large ones 255.
pub open spec fn to_byte(x: (int, nat)) -> u8 {
    if x.0 < 0 {
        0
    } else if single::whole(x) > 255 {
        255
    } else {
        single::whole(x) as u8
    }
}

/// The channel value a fraction `t` of the way from `a` to `b`, in single precision.
pub open spec fn lerped(a: u8, b: u8, t: (int, nat)) -> u8 {
    to_byte(single::plus((a as int, 0), single::times((b - a, 0), clamped_unit(t))))
}

/// How far `t` lies above `lo`, as a fraction of `span`, in single precision.
pub open spec fn position(t: (int, nat), lo: (int, nat), span: (int, nat)) -> (int, nat) {
    single::over(single::minus(t, lo), span)
}

/// A value in `[0, 4]` with a short numerator.
pub open spec fn is_small(x: Single) -> bool {
    &&& 0 <= x.num <= 0x400_0000
    &&& x.shift <= 40
    &&& x.num <= 4 * pow2(x.shift as nat)
}

pub fn cut_to_byte(x: Single) -> (r: u8)
    requires
        x.shift <= 72,
    ensures
        r == to_byte(x@),
{
    if x.num < 0 {
        return 0;
    }
    let w: u128 = x.whole();
    if w > 255 {
        255
    } else {
        w as u8
    }
}

pub fn clamp_unit(x: Single) -> (r: Single)
    requires
        x.shift <= 72,
        0 <= x.num <= 0x100_0000,
    ensures
        r@ == clamped_unit(x@),
        0 <= r.num <= 0x100_0000,
        r.shift <= x.shift,
{
    let zero: Single = Single::whole_number(0);
    let one: Single = Single::whole_number(1);
    if x.less(zero) {
        zero
    } else if one.less(x) {
        one
    } else {
        x
    }
}

/// Interpolates one channel.
pub fn lerp_u8(a: u8, b: u8, t: Single) -> (r: u8)
    requires
        t.shift <= 72,
        0 <= t.num <= 0x100_0000,
    ensures
        r == lerped(a, b, t@),
{
    let c: Single = clamp_unit(t);
    let d: Single = Single::whole_number(b as i32 - a as i32);
    let p: Single = d.times(c);
    proof {
        let x = d.num * c.num;
        assert(-255 * 0x100_0000 <= d.num * c.num <= 255 * 0x100_0000) by (nonlinear_arith)
            requires
                -255 <= d.num <= 255,
                0 <= c.num <= 0x100_0000,
        ;
    }
    let v: Single = Single::whole_number(a as i32).plus(p);
    cut_to_byte(v)
}

proof fn lemma_small_widened(x: Single, m: nat)
    requires
        is_small(x),
        x.shift <= m <= 40,
    ensures
        0 <= single::widened(x@, m) <= 4 * pow2(m),
{
    let p = pow2((m - x.shift) as nat);
    let q = pow2(x.shift as nat);
    lemma_pow2_adds((m - x.shift) as nat, x.shift as nat);
    lemma_pow2_pos((m - x.shift) as nat);
    assert(0 <= x.num * p <= 4 * (p * q)) by (nonlinear_arith)
        requires
            0 <= x.num <= 4 * q,
            p > 0,
    ;
}

/// Scaling both sides of a bound by a power of two.
proof fn lemma_widened_bounds(x: (int, nat), m: nat, factor: nat)
    requires
        x.1 <= m,
        0 <= x.0,
    ensures
        x.0 <= factor * pow2(x.1) ==> single::widened(x, m) <= factor * pow2(m),
        factor * x.0 >= pow2(x.1) ==> factor * single::widened(x, m) >= pow2(m),
        single::widened(x, m) >= 0,
{
    let p = pow2((m - x.1) as nat);
    let q = pow2(x.1);
    lemma_pow2_adds((m - x.1) as nat, x.1);
    lemma_pow2_pos((m - x.1) as nat);
    assert(x.0 <= factor * q ==> x.0 * p <= factor * (p * q)) by (nonlinear_arith)
        requires
            p > 0,
    ;
    assert(factor * x.0 >= q ==> factor * (x.0 * p) >= p * q) by (nonlinear_arith)
        requires
            p > 0,
    ;
    assert(x.0 * p >= 0) by (nonlinear_arith)
        requires
            x.0 >= 0,
            p > 0,
    ;
}

/// A width between `1/64` and 8.
pub open spec fn is_span(x: Single) -> bool {
    &&& 0 < x.num
    &&& x.shift <= 40
    &&& x.num <= 8 * pow2(x.shift as nat)
    &&& 64 * x.num >= pow2(x.shift as nat)
}

/// The quotient of a value in `[0, 8]` by a width.
pub fn fraction_of(up: Single, span: Single) -> (r: Single)
    requires
        0 <= up.num <= 8 * pow2(up.shift as nat),
        up.shift <= 40,
        is_span(span),
    ensures
        r@ == single::over(up@, span@),
        0 <= r.num <= 0x100_0000,
        r.shift <= 68,
{
    proof {
        let m = single::common(up@, span@);
        lemma2_to64();
        lemma2_to64_rest();
        if m < 40 {
            lemma_pow2_strictly_increases(m, 40);
        }
        if up.shift < 40 {
            lemma_pow2_strictly_increases(up.shift as nat, 40);
        }
        if span.shift < 40 {
            lemma_pow2_strictly_increases(span.shift as nat, 40);
        }
        lemma_widened_bounds(up@, m, 8);
        lemma_widened_bounds(span@, m, 8);
        lemma_widened_bounds(span@, m, 64);
        lemma_pow2_pos(m);
    }
    up.over(span)
}

/// How far `t` lies above `lo`, as a fraction of `span`.
pub fn ramp_position(t: Single, lo: Single, span: Single) -> (r: Single)
    requires
        is_small(t),
        is_small(lo),
        is_span(span),
        !single::less(t@, lo@),
    ensures
        r@ == position(t@, lo@, span@),
        0 <= r.num <= 0x100_0000,
        r.shift <= 68,
{
    let up: Single = t.minus(lo);
    proof {
        let m1 = single::common(t@, lo@);
        lemma_small_widened(t, m1);
        lemma_small_widened(lo, m1);
    }
    fraction_of(up, span)
}

// ── Waterfall colormap ──────────────────────────────────────────────────────

/// The control points of the waterfall colormap: level as a numerator and a shift, and colour.
#[verifier::allow_in_spec]
pub fn stop(j: usize) -> (i128, u32, u32)
    returns
        (match j {
            0 => (0i128, 0u32, 0x020208u32),
            1 => (9395241, 25, 0x050A37),
            2 => (15435039, 25, 0x0C2891),
            3 => (9395241, 24, 0x0578C3),
            4 => (11072963, 24, 0x00D2B4),
            5 => (1614807, 21, 0x28D737),
            6 => (7214203, 23, 0xFAD700),
            7 => (15770583, 24, 0xFF6400),
            _ => (1, 0, 0xFFFFFF),
        }),
{
    match j {
        0 => (0, 0, 0x020208),
        1 => (9395241, 25, 0x050A37),
        2 => (15435039, 25, 0x0C2891),
        3 => (9395241, 24, 0x0578C3),
        4 => (11072963, 24, 0x00D2B4),
        5 => (1614807, 21, 0x28D737),
        6 => (7214203, 23, 0xFAD700),
        7 => (15770583, 24, 0xFF6400),
        _ => (1, 0, 0xFFFFFF),
    }
}

/// The level of a control point. The nine levels are the single-precision values of
/// 0, 0.28, 0.46, 0.56, 0.66, 0.77, 0.86, 0.94 and 1.
pub open spec fn stop_level(j: usize) -> (int, nat) {
    (stop(j).0 as int, stop(j).1 as nat)
}

/// The colour of a control point.
pub open spec fn stop_color(j: usize) -> Color {
    rgb(stop(j).2)
}

/// The first of the segments `j`, `j + 1`, ... 7 that holds the level `t`; 8 when none does.
pub open spec fn segment_from(t: (int, nat), j: usize) -> usize
    decreases 8 - j,
{
    if j >= 8 || (!single::less(t, stop_level(j)) && !single::less(
        stop_level((j + 1) as usize),
        t,
    )) {
        j
    } else {
        segment_from(t, (j + 1) as usize)
    }
}

/// The two control points around the level `t`.
pub open spec fn stops_around(t: (int, nat)) -> (usize, usize) {
    let j = segment_from(t, 0);
    if j < 8 {
        (j, (j + 1) as usize)
    } else {
        (0, 8)
    }
}

/// Entry `i` of the waterfall colormap: the interpolation, in single precision, between the
/// control points around `i / 255`.
pub open spec fn colormap_entry(i: int) -> Color {
    let t = single::quotient(i as nat, 255);
    let (lo, hi) = stops_around(t);
    let at = position(t, stop_level(lo), single::minus(stop_level(hi), stop_level(lo)));
    Color::from_rgb(
        lerped(stop_color(lo).r, stop_color(hi).r, at),
        lerped(stop_color(lo).g, stop_color(hi).g, at),
        lerped(stop_color(lo).b, stop_color(hi).b, at),
    )
}

proof fn lemma_stops_small(j: usize)
    requires
        j <= 8,
    ensures
        0 <= stop(j).0 <= 0x100_0000,
        stop(j).1 <= 25,
        stop(j).0 <= pow2(stop(j).1 as nat),
{
    lemma2_to64();
}

/// Control points that frame a segment are at least `1/32` apart.
proof fn lemma_stops_apart(lo: usize, hi: usize)
    requires
        (lo < 8 && hi == lo + 1) || (lo == 0 && hi == 8),
    ensures
        ({
            let m = single::common(stop_level(hi), stop_level(lo));
            let x = single::widened(stop_level(hi), m) - single::widened(stop_level(lo), m);
            &&& 32 * x >= pow2(m)
            &&& 0 < x <= 2 * pow2(m)
            &&& m <= 25
        }),
{
    lemma2_to64();
    if lo == 0 && hi == 1 {
        assert(single::widened((0, 0), 25) == 0 * pow2(25));
        assert(single::widened((9395241, 25), 25) == 9395241 * pow2(0));
    } else if lo == 1 && hi == 2 {
        assert(single::widened((9395241, 25), 25) == 9395241 * pow2(0));
        assert(single::widened((15435039, 25), 25) == 15435039 * pow2(0));
    } else if lo == 2 && hi == 3 {
        assert(single::widened((15435039, 25), 25) == 15435039 * pow2(0));
        assert(single::widened((9395241, 24), 25) == 9395241 * pow2(1));
    } else if lo == 3 && hi == 4 {
        assert(single::widened((9395241, 24), 24) == 9395241 * pow2(0));
        assert(single::widened((11072963, 24), 24) == 11072963 * pow2(0));
    } else if lo == 4 && hi == 5 {
        assert(single::widened((11072963, 24), 24) == 11072963 * pow2(0));
        assert(single::widened((1614807, 21), 24) == 1614807 * pow2(3));
    } else if lo == 5 && hi == 6 {
        assert(single::widened((1614807, 21), 23) == 1614807 * pow2(2));
        assert(single::widened((7214203, 23), 23) == 7214203 * pow2(0));
    } else if lo == 6 && hi == 7 {
        assert(single::widened((7214203, 23), 24) == 7214203 * pow2(1));
        assert(single::widened((15770583, 24), 24) == 15770583 * pow2(0));
    } else if lo == 7 && hi == 8 {
        assert(single::widened((15770583, 24), 24) == 15770583 * pow2(0));
        assert(single::widened((1, 0), 24) == 1 * pow2(24));
    } else if lo == 0 && hi == 8 {
        assert(single::widened((0, 0), 0) == 0 * pow2(0));
        assert(single::widened((1, 0), 0) == 1 * pow2(0));
    }
}

fn stop_single(j: usize) -> (r: Single)
    requires
        j <= 8,
    ensures
        r@ == stop_level(j),
        is_small(r),
        r.shift <= 25,
{
    proof {
        lemma_stops_small(j);
    }
    let s: (i128, u32, u32) = stop(j);
    Single { num: s.0, shift: s.1 }
}

/// The level `i / 255`.
pub fn unit_level(i: usize) -> (t: Single)
    requires
        i <= 255,
    ensures
        t@ == single::quotient(i as nat, 255),
        is_small(t),
        t.shift <= 31,
        t.num <= pow2(t.shift as nat),
{
    let t: Single = single::ratio(i as u128, 255);
    proof {
        lemma2_to64();
        if t.shift > 31 {
            lemma_pow2_strictly_increases(31, t.shift as nat);
            if t.shift > 32 {
                lemma_pow2_strictly_increases(32, t.shift as nat);
            }
        }
    }
    t
}

fn find_stops(t: Single) -> (r: (usize, usize))
    requires
        is_small(t),
    ensures
        r == stops_around(t@),
        r.0 < 8 && r.1 == r.0 + 1 || r.0 == 0 && r.1 == 8,
        !single::less(t@, stop_level(r.0)),
{
    let mut j: usize = 0;
    while j < 8
        invariant
            j <= 8,
            is_small(t),
            segment_from(t@, 0) == segment_from(t@, j),
        decreases 8 - j,
    {
        let lo: Single = stop_single(j);
        let hi: Single = stop_single(j + 1);
        if !t.less(lo) && !hi.less(t) {
            return (j, j + 1);
        }
        j += 1;
    }
    proof {
        let m = single::common(t@, stop_level(0));
        lemma_widened_bounds(t@, m, 1);
        assert(single::widened(stop_level(0), m) == 0) by (nonlinear_arith)
            requires
                single::widened(stop_level(0), m) == 0 * pow2(m),
        ;
    }
    (0, 8)
}

/// The 256-entry thermal colormap, from near-black over blue, cyan, green, yellow and orange to
/// white.
pub fn waterfall_colormap() -> (lut: Vec<Color>)
    ensures
        lut@.len() == 256,
        forall|i: int| 0 <= i < 256 ==> #[trigger] lut@[i] == colormap_entry(i),
{
    let mut lut: Vec<Color> = Vec::new();
    let mut i: usize = 0;
    while i < 256
        invariant
            i <= 256,
            lut@.len() == i,
            forall|k: int| 0 <= k < i ==> #[trigger] lut@[k] == colormap_entry(k),
        decreases 256 - i,
    {
        let t: Single = unit_level(i);
        let (lo, hi): (usize, usize) = find_stops(t);
        let a: Single = stop_single(lo);
        let b: Single = stop_single(hi);
        let span: Single = b.minus(a);
        proof {
            lemma_stops_apart(lo, hi);
        }
        let at: Single = ramp_position(t, a, span);
        let ca: Color = rgb(stop(lo).2);
        let cb: Color = rgb(stop(hi).2);
        lut.push(
            Color::from_rgb(
                lerp_u8(ca.r, cb.r, at),
                lerp_u8(ca.g, cb.g, at),
                lerp_u8(ca.b, cb.b, at),
            ),
        );
        i += 1;
    }
    lut
}

// ── Laws ────────────────────────────────────────────────────────────────────

/// Hundredths of the level at each control point of the waterfall colormap, and its colour.
pub open spec fn control_point(j: int) -> (int, int, int, int) {
    if j == 0 {
        (0, 0x02, 0x02, 0x08)
    } else if j == 1 {
        (28, 0x05, 0x0A, 0x37)
    } else if j == 2 {
        (46, 0x0C, 0x28, 0x91)
    } else if j == 3 {
        (56, 0x05, 0x78, 0xC3)
    } else if j == 4 {
        (66, 0x00, 0xD2, 0xB4)
    } else if j == 5 {
        (77, 0x28, 0xD7, 0x37)
    } else if j == 6 {
        (86, 0xFA, 0xD7, 0x00)
    } else if j == 7 {
        (94, 0xFF, 0x64, 0x00)
    } else {
        (100, 0xFF, 0xFF, 0xFF)
    }
}

/// The control points of the colormap stand at their hundredths, as closely as a single-precision
/// number can, in ascending order, from nearly black over blue, cyan, green, yellow and orange to
/// white.
pub proof fn law_control_points(j: usize)
    requires
        j <= 8,
    ensures
        ({
            let (hundredths, r, g, b) = control_point(j as int);
            let (num, shift) = stop_level(j);
            let error = 100 * num - hundredths * pow2(shift);
            &&& -50 <= error <= 50
            &&& stop_color(j).r == r && stop_color(j).g == g && stop_color(j).b == b
            &&& stop_color(j).a == 255
            &&& j < 8 ==> hundredths < control_point(j + 1).0
        }),
{
    lemma2_to64();
    assert(pow2(0) == 1 && pow2(21) == 0x20_0000 && pow2(23) == 0x80_0000 && pow2(24)
        == 0x100_0000 && pow2(25) == 0x200_0000);
    if j == 0 {
        assert(stop_level(j) == (0int, 0nat));
    } else if j == 1 {
        assert(stop_level(j) == (9395241int, 25nat));
    } else if j == 2 {
        assert(stop_level(j) == (15435039int, 25nat));
    } else if j == 3 {
        assert(stop_level(j) == (9395241int, 24nat));
    } else if j == 4 {
        assert(stop_level(j) == (11072963int, 24nat));
    } else if j == 5 {
        assert(stop_level(j) == (1614807int, 21nat));
    } else if j == 6 {
        assert(stop_level(j) == (7214203int, 23nat));
    } else if j == 7 {
        assert(stop_level(j) == (15770583int, 24nat));
    } else {
        assert(stop_level(j) == (1int, 0nat));
    }
}

/// Interpolation starts at the one value and ends at the other; below the start and beyond the end
/// it stays there.
pub proof fn law_interpolation_ends(a: u8, b: u8, t: (int, nat))
    requires
        single::less(t, (0, 0)) || t == (0int, 0nat) || t == (1int, 0nat) || single::less(
            (1, 0),
            t,
        ),
    ensures
        single::less(t, (0, 0)) || t == (0int, 0nat) ==> lerped(a, b, t) == a,
        !single::less(t, (0, 0)) && (t == (1int, 0nat) || single::less((1, 0), t)) ==> lerped(
            a,
            b,
            t,
        ) == b,
{
    lemma2_to64();
    single::law_small_numbers_are_exact(0);
    single::law_small_numbers_are_exact(a as int);
    single::law_small_numbers_are_exact(b as int);
    single::law_small_numbers_are_exact(b - a);
    assert(pow2(0) == 1);
    assert((b - a) * 0 == 0 && (b - a) * 1 == b - a);
    assert(a as int * 1 == a && b as int * 1 == b);
    let t = clamped_unit(t);
    assert(t == (0int, 0nat) || t == (1int, 0nat)) by {
        if t == (0int, 0nat) {
            assert(!single::less(t, (0, 0)));
        }
        assert((0int) * 1 == 0 && (1int) * 1 == 1);
    }
    assert(single::times((b - a, 0), t) == (single::round24((b - a) * t.0), 0nat));
    vstd::arithmetic::div_mod::lemma_div_basics(a as int);
    vstd::arithmetic::div_mod::lemma_div_basics(b as int);
    assert(single::whole((a as int, 0)) == a);
    assert(single::whole((b as int, 0)) == b);
}

/// The three colours of the MIDI pages repeat, and the first three pages have different ones.
pub proof fn law_page_colours(page: int)
    requires
        page >= 0,
    ensures
        page_color(page + 3) == page_color(page),
        page_color(0) == (Color { r: 0x50, g: 0xB4, b: 0xFF, a: 255 }),
        page_color(1) == (Color { r: 0x50, g: 0xDC, b: 0x96, a: 255 }),
        page_color(2) == (Color { r: 0xFF, g: 0x8C, b: 0x3C, a: 255 }),
{
}

/// A colour written in base 16 has its channels in the order red, green, blue and, where there is
/// one, alpha.
pub proof fn law_colour_channels(r: u8, g: u8, b: u8, a: u8)
    ensures
        rgb((r * 0x1_0000 + g * 0x100 + b) as u32) == (Color { r, g, b, a: 255 }),
        rgba((r * 0x100_0000 + g * 0x1_0000 + b * 0x100 + a) as u32) == (Color { r, g, b, a }),
{
    let three = r * 0x1_0000 + g * 0x100 + b;
    lemma_last_byte(r * 0x100 + g, b as int);
    lemma_last_byte(r as int, g as int);
    assert(three == (r * 0x100 + g) * 0x100 + b);
    assert(three / 0x1_0000 == three / 0x100 / 0x100);
    let four = r * 0x100_0000 + g * 0x1_0000 + b * 0x100 + a;
    lemma_last_byte(three, a as int);
    assert(four == three * 0x100 + a);
    assert(four / 0x1_0000 == four / 0x100 / 0x100);
    assert(four / 0x100_0000 == four / 0x1_0000 / 0x100);
    assert(r as int % 0x100 == r);
}

proof fn lemma_last_byte(head: int, last: int)
    requires
        0 <= head,
        0 <= last < 0x100,
    ensures
        (head * 0x100 + last) / 0x100 == head,
        (head * 0x100 + last) % 0x100 == last,
{
}

} // verus!
