//! Waterfall (scrolling spectrogram) history.
//!
//! The history is an RGBA pixel buffer of fixed size. Each new row of levels is painted at the top
//! through a 256-entry colormap, and every older row moves down by one; the oldest leaves.

use vstd::arithmetic::power2::*;
use vstd::prelude::*;

use crate::single;
use crate::single::Single;
use crate::theme;
use crate::theme::Color;

verus! {

/// Rows of history.
pub const WATERFALL_HEIGHT: usize = 200;

/// Entries of a colormap.
pub const COLORMAP_LEN: usize = 256;

/// Parameters of the VFO overlay drawn on top of the waterfall texture.
#[derive(Clone, Copy, PartialEq, Eq, Debug)]
pub struct WaterfallOverlay {
    /// Centre frequency of the active VFO in hertz.
    pub vfo_hz: u64,
    /// Visible frequency range (lo, hi) in hertz, mapped to the left and right edges.
    pub freq_range: (u64, u64),
    /// Left edge of the demodulator passband in hertz.
    pub filter_lo_hz: u64,
    /// Right edge of the demodulator passband in hertz.
    pub filter_hi_hz: u64,
}

pub struct WaterfallWidget {
    /// RGBA pixels, row-major, four bytes each.
    pub pixels: Vec<u8>,
    pub width: usize,
    pub height: usize,
    /// Colour of each level.
    pub colormap: Vec<Color>,
}

/// The level that is drawn at column `x` when `n` levels fill a row of `w` pixels.
pub open spec fn bin_at(x: int, n: int, w: int) -> int {
    if x * n / w < n - 1 {
        x * n / w
    } else {
        n - 1
    }
}

/// The bytes of a row painted from `levels`.
pub open spec fn painted(levels: Seq<u8>, colormap: Seq<Color>, w: int) -> Seq<u8> {
    Seq::new(
        (4 * w) as nat,
        |i: int|
            {
                let c = colormap[levels[bin_at(i / 4, levels.len() as int, w)] as int];
                if i % 4 == 0 {
                    c.r
                } else if i % 4 == 1 {
                    c.g
                } else if i % 4 == 2 {
                    c.b
                } else {
                    255
                }
            },
    )
}

/// The history after one more row.
pub open spec fn pushed(history: Seq<Seq<u8>>, row: Seq<u8>) -> Seq<Seq<u8>> {
    seq![row] + history.drop_last()
}

/// The history after more rows, the first of them pushed first.
pub open spec fn pushed_all(history: Seq<Seq<u8>>, rows: Seq<Seq<u8>>) -> Seq<Seq<u8>>
    decreases rows.len(),
{
    if rows.len() == 0 {
        history
    } else {
        pushed(pushed_all(history, rows.drop_last()), rows.last())
    }
}

impl WaterfallWidget {
    /// The rows, newest first.
    pub open spec fn rows(&self) -> Seq<Seq<u8>> {
        Seq::new(
            self.height as nat,
            |r: int| self.pixels@.subrange(r * (4 * self.width), (r + 1) * (4 * self.width)),
        )
    }

    pub open spec fn wf(&self) -> bool {
        &&& self.height == WATERFALL_HEIGHT
        &&& self.pixels@.len() == self.width * WATERFALL_HEIGHT * 4
        &&& self.width * WATERFALL_HEIGHT * 4 <= isize::MAX
        &&& self.colormap@.len() == COLORMAP_LEN
    }

    /// A black history drawn with the simple gradient.
    pub fn new(width: usize) -> (r: Self)
        requires
            width * WATERFALL_HEIGHT * 4 <= isize::MAX,
        ensures
            r.wf(),
            r.width == width,
            forall|i: int| 0 <= i < r.pixels@.len() ==> r.pixels@[i] == 0,
            forall|i: int| 0 <= i < 256 ==> #[trigger] r.colormap@[i] == simple_entry(i),
    {
        let pixels: Vec<u8> = vec![0u8; width * WATERFALL_HEIGHT * 4];
        WaterfallWidget {
            pixels,
            width,
            height: WATERFALL_HEIGHT,
            colormap: build_simple_colormap(),
        }
    }

    /// A black history drawn with the theme's thermal colormap.
    pub fn new_with_colormap(width: usize) -> (r: Self)
        requires
            width * WATERFALL_HEIGHT * 4 <= isize::MAX,
        ensures
            r.wf(),
            r.width == width,
            forall|i: int| 0 <= i < r.pixels@.len() ==> r.pixels@[i] == 0,
            forall|i: int| 0 <= i < 256 ==> #[trigger] r.colormap@[i] == theme::colormap_entry(i),
    {
        let pixels: Vec<u8> = vec![0u8; width * WATERFALL_HEIGHT * 4];
        WaterfallWidget {
            pixels,
            width,
            height: WATERFALL_HEIGHT,
            colormap: theme::waterfall_colormap(),
        }
    }

    /// Pushes a row of levels at the top; every older row moves down by one.
    pub fn push_row(&mut self, levels: &[u8])
        requires
            old(self).wf(),
            old(self).width > 0 ==> levels@.len() > 0,
            old(self).width * levels@.len() <= usize::MAX,
        ensures
            final(self).wf(),
            final(self).width == old(self).width,
            final(self).colormap@ == old(self).colormap@,
            final(self).rows() == pushed(
                old(self).rows(),
                painted(levels@, old(self).colormap@, old(self).width as int),
            ),
    {
        let w: usize = self.width;
        let row: usize = w * 4;
        let ghost before = self.pixels@;
        let ghost map = self.colormap@;
        let len: usize = self.pixels.len();
        let mut i: usize = len;
        while i > row
            invariant
                row == w * 4,
                len == w * WATERFALL_HEIGHT * 4,
                len == before.len(),
                row <= i <= len,
                self.width == w,
                self.height == WATERFALL_HEIGHT,
                self.colormap@ == map,
                self.pixels@.len() == len,
                forall|j: int| 0 <= j < i ==> self.pixels@[j] == before[j],
                forall|j: int| i <= j < len ==> #[trigger] self.pixels@[j] == before[j - row],
            decreases i,
        {
            i -= 1;
            let b: u8 = self.pixels[i - row];
            self.pixels.set(i, b);
        }
        let n: usize = levels.len();
        let mut x: usize = 0;
        let ghost top = painted(levels@, map, w as int);
        while x < w
            invariant
                row == w * 4,
                len == w * WATERFALL_HEIGHT * 4,
                len <= isize::MAX,
                len == before.len(),
                x <= w,
                n == levels@.len(),
                w > 0 ==> n > 0,
                w * n <= usize::MAX,
                self.width == w,
                self.height == WATERFALL_HEIGHT,
                self.colormap@ == map,
                map.len() == COLORMAP_LEN,
                self.pixels@.len() == len,
                top == painted(levels@, map, w as int),
                forall|j: int| 0 <= j < 4 * x ==> self.pixels@[j] == #[trigger] top[j],
                forall|j: int| row <= j < len ==> #[trigger] self.pixels@[j] == before[j - row],
            decreases w - x,
        {
            assert(x * n <= w * n) by (nonlinear_arith)
                requires
                    x <= w,
            ;
            let at: usize = x * n / w;
            let bin: usize = if at < n - 1 {
                at
            } else {
                n - 1
            };
            assert(bin == bin_at(x as int, n as int, w as int));
            let c: Color = self.colormap[levels[bin] as usize];
            let o: usize = x * 4;
            self.pixels.set(o, c.r);
            self.pixels.set(o + 1, c.g);
            self.pixels.set(o + 2, c.b);
            self.pixels.set(o + 3, 255);
            proof {
                assert(o / 4 == x && (o + 1) / 4 == x && (o + 2) / 4 == x && (o + 3) / 4 == x);
                assert(top[o as int] == c.r);
                assert(top[o + 1] == c.g);
                assert(top[o + 2] == c.b);
                assert(top[o + 3] == 255);
            }
            x += 1;
        }
        proof {
            let old_rows = Seq::new(
                WATERFALL_HEIGHT as nat,
                |r: int| before.subrange(r * (4 * w), (r + 1) * (4 * w)),
            );
            let want = pushed(old_rows, top);
            assert(self.rows().len() == want.len());
            assert forall|r: int| 0 <= r < self.rows().len() implies self.rows()[r] == want[r] by {
                let lo = r * (4 * w);
                let hi = (r + 1) * (4 * w);
                lemma_row_range(r, w as int);
                if r == 0 {
                    assert(lo == 0) by (nonlinear_arith)
                        requires
                            lo == r * (4 * w),
                            r == 0,
                    ;
                    assert(hi == lo + 4 * w);
                    assert(top.len() == 4 * w);
                    let first = self.pixels@.subrange(0, 4 * w);
                    assert forall|j: int| 0 <= j < 4 * w implies first[j] == top[j] by {
                        assert(self.pixels@[j] == top[j]);
                    }
                    assert(first =~= top);
                    assert(self.rows()[0] == self.pixels@.subrange(lo, hi));
                } else {
                    lemma_row_range(r - 1, w as int);
                    assert(want[r] == old_rows[r - 1]);
                    assert(self.rows()[r] =~= old_rows[r - 1]);
                }
            }
            assert(self.rows() =~= want);
        }
    }

    /// Replaces the colormap for the rows to come.
    pub fn set_colormap(&mut self, colormap: Vec<Color>)
        requires
            old(self).wf(),
            colormap@.len() == COLORMAP_LEN,
        ensures
            final(self).wf(),
            *final(self) == (WaterfallWidget { colormap, ..*old(self) }),
    {
        self.colormap = colormap;
    }

    /// Blanks the history.
    pub fn clear(&mut self)
        requires
            old(self).wf(),
        ensures
            final(self).wf(),
            final(self).width == old(self).width,
            final(self).colormap@ == old(self).colormap@,
            forall|i: int| 0 <= i < final(self).pixels@.len() ==> final(self).pixels@[i] == 0,
    {
        let len: usize = self.pixels.len();
        let ghost map = self.colormap@;
        let ghost w = self.width;
        let mut i: usize = 0;
        while i < len
            invariant
                i <= len,
                len == w * WATERFALL_HEIGHT * 4,
                self.width == w,
                self.height == WATERFALL_HEIGHT,
                self.colormap@ == map,
                self.pixels@.len() == len,
                forall|j: int| 0 <= j < i ==> self.pixels@[j] == 0,
            decreases len - i,
        {
            self.pixels.set(i, 0);
            i += 1;
        }
    }
}

proof fn lemma_row_range(r: int, w: int)
    requires
        0 <= r < WATERFALL_HEIGHT,
        0 <= w,
    ensures
        0 <= r * (4 * w) <= (r + 1) * (4 * w) <= w * WATERFALL_HEIGHT * 4,
        (r + 1) * (4 * w) == r * (4 * w) + 4 * w,
{
    assert((r + 1) * (4 * w) == r * (4 * w) + 4 * w) by (nonlinear_arith);
    assert(0 <= r * (4 * w)) by (nonlinear_arith)
        requires
            0 <= r,
            0 <= w,
    ;
    assert((r + 1) * (4 * w) <= 200 * (4 * w)) by (nonlinear_arith)
        requires
            r + 1 <= 200,
            0 <= w,
    ;
}

/// After any number of rows the newest stands on top, each older one below it, and what was there
/// before follows; rows beyond the height are gone.
pub proof fn law_rows_are_history(history: Seq<Seq<u8>>, rows: Seq<Seq<u8>>)
    requires
        history.len() > 0,
    ensures
        pushed_all(history, rows).len() == history.len(),
        forall|j: int|
            0 <= j < history.len() ==> #[trigger] pushed_all(history, rows)[j] == (if j
                < rows.len() {
                rows[rows.len() - 1 - j]
            } else {
                history[j - rows.len()]
            }),
    decreases rows.len(),
{
    if rows.len() > 0 {
        let before = pushed_all(history, rows.drop_last());
        law_rows_are_history(history, rows.drop_last());
        assert forall|j: int| 0 <= j < history.len() implies #[trigger] pushed_all(
            history,
            rows,
        )[j] == (if j < rows.len() {
            rows[rows.len() - 1 - j]
        } else {
            history[j - rows.len()]
        }) by {
            if j > 0 {
                assert(pushed_all(history, rows)[j] == before[j - 1]);
            }
        }
    }
}

// ── Simple gradient ─────────────────────────────────────────────────────────

/// The single-precision values of 0.33, 0.66 and 0.34.
pub open spec fn third() -> (int, nat) {
    (11072963, 25)
}

pub open spec fn two_thirds() -> (int, nat) {
    (11072963, 24)
}

pub open spec fn last_third() -> (int, nat) {
    (11408507, 25)
}

/// `base + s * gain` cut to a byte, in single precision.
pub open spec fn channel(base: int, gain: int, s: (int, nat)) -> u8 {
    theme::to_byte(single::plus((base, 0), single::times(s, (gain, 0))))
}

/// Entry `i` of the simple gradient: blue, over cyan and green, to yellow and white.
pub open spec fn simple_entry(i: int) -> Color {
    let t = single::quotient(i as nat, 255);
    if single::less(t, third()) {
        let s = single::over(t, third());
        Color::from_rgb(0, channel(0, 180, s), channel(50, 205, s))
    } else if single::less(t, two_thirds()) {
        let s = theme::position(t, third(), third());
        Color::from_rgb(channel(0, 255, s), 180, channel(255, -255, s))
    } else {
        let s = theme::position(t, two_thirds(), last_third());
        Color::from_rgb(255, channel(180, 75, s), channel(0, 255, s))
    }
}

fn exec_channel(base: i32, gain: i32, s: Single) -> (r: u8)
    requires
        -255 <= base <= 255,
        -255 <= gain <= 255,
        0 <= s.num <= 0x100_0000,
        s.shift <= 68,
    ensures
        r == channel(base as int, gain as int, s@),
{
    let g: Single = Single::whole_number(gain);
    let p: Single = s.times(g);
    proof {
        assert(-255 * 0x100_0000 <= s.num * g.num <= 255 * 0x100_0000) by (nonlinear_arith)
            requires
                -255 <= g.num <= 255,
                0 <= s.num <= 0x100_0000,
        ;
    }
    theme::cut_to_byte(Single::whole_number(base).plus(p))
}

/// The simple 256-entry gradient.
pub fn build_simple_colormap() -> (lut: Vec<Color>)
    ensures
        lut@.len() == COLORMAP_LEN,
        forall|i: int| 0 <= i < 256 ==> #[trigger] lut@[i] == simple_entry(i),
{
    let a: Single = Single { num: 11072963, shift: 25 };
    let b: Single = Single { num: 11072963, shift: 24 };
    let c: Single = Single { num: 11408507, shift: 25 };
    let mut lut: Vec<Color> = Vec::new();
    let mut i: usize = 0;
    proof {
        lemma2_to64();
    }
    while i < 256
        invariant
            i <= 256,
            a@ == third(),
            b@ == two_thirds(),
            c@ == last_third(),
            theme::is_small(a),
            theme::is_small(b),
            theme::is_span(a),
            theme::is_span(c),
            lut@.len() == i,
            forall|k: int| 0 <= k < i ==> #[trigger] lut@[k] == simple_entry(k),
        decreases 256 - i,
    {
        let t: Single = theme::unit_level(i);
        let color: Color = if t.less(a) {
            let s: Single = theme::fraction_of(t, a);
            Color::from_rgb(0, exec_channel(0, 180, s), exec_channel(50, 205, s))
        } else if t.less(b) {
            let s: Single = theme::ramp_position(t, a, a);
            Color::from_rgb(exec_channel(0, 255, s), 180, exec_channel(255, -255, s))
        } else {
            let s: Single = theme::ramp_position(t, b, c);
            Color::from_rgb(255, exec_channel(180, 75, s), exec_channel(0, 255, s))
        };
        lut.push(color);
        i += 1;
    }
    lut
}

// ── Laws ────────────────────────────────────────────────────────────────────

/// The levels are spread evenly over the columns: a column shows the level at the same fraction of
/// the row, so that the first column shows the first level, columns to the right never show an
/// earlier one, and as many levels as columns are shown one for one.
pub proof fn law_levels_are_spread(x: int, n: int, w: int)
    requires
        0 <= x < w,
        1 <= n,
    ensures
        0 <= bin_at(x, n, w) < n,
        bin_at(x, n, w) * w <= x * n < (bin_at(x, n, w) + 1) * w,
        bin_at(0, n, w) == 0,
        n == w ==> bin_at(x, n, w) == x,
        x + 1 < w ==> bin_at(x, n, w) <= bin_at(x + 1, n, w),
{
    let q = x * n / w;
    vstd::arithmetic::div_mod::lemma_fundamental_div_mod(x * n, w);
    assert(w * q == q * w) by (nonlinear_arith);
    assert((q + 1) * w == q * w + w) by (nonlinear_arith);
    assert(0 <= x * n) by (nonlinear_arith)
        requires
            0 <= x,
            1 <= n,
    ;
    assert(q >= 0) by {
        vstd::arithmetic::div_mod::lemma_div_pos_is_pos(x * n, w);
    }
    assert(q < n) by (nonlinear_arith)
        requires
            q * w <= x * n,
            x < w,
            1 <= n,
            0 <= x,
    ;
    assert(0 * n == 0) by (nonlinear_arith);
    vstd::arithmetic::div_mod::lemma_basic_div(0, w);
    if n == w {
        vstd::arithmetic::div_mod::lemma_div_multiples_vanish(x, w);
        assert(x * n == w * x) by (nonlinear_arith)
            requires
                n == w,
        ;
    }
    if x + 1 < w {
        assert(x * n <= (x + 1) * n) by (nonlinear_arith)
            requires
                1 <= n,
        ;
        vstd::arithmetic::div_mod::lemma_div_is_ordered(x * n, (x + 1) * n, w);
    }
}

/// Each pixel of a row is the colour of its level, in the order red, green, blue, and opaque.
pub proof fn law_pixels_have_their_colours(levels: Seq<u8>, map: Seq<Color>, w: int, x: int)
    requires
        0 <= x < w,
        levels.len() >= 1,
    ensures
        painted(levels, map, w).len() == 4 * w,
        ({
            let c = map[levels[bin_at(x, levels.len() as int, w)] as int];
            let row = painted(levels, map, w);
            &&& row[4 * x] == c.r
            &&& row[4 * x + 1] == c.g
            &&& row[4 * x + 2] == c.b
            &&& row[4 * x + 3] == 255
        }),
{
    assert((4 * x) / 4 == x && (4 * x + 1) / 4 == x && (4 * x + 2) / 4 == x && (4 * x + 3) / 4
        == x);
}

/// A well-formed waterfall holds 200 rows of its width and a colour for each of the 256 levels.
pub proof fn law_history_of_200_rows(w: WaterfallWidget)
    requires
        w.wf(),
    ensures
        w.rows().len() == 200,
        w.colormap@.len() == 256,
        w.pixels@.len() == 800 * w.width,
{
    let x = w.width as int;
    assert(x * 200 * 4 == 800 * x) by (nonlinear_arith);
}

} // verus!
