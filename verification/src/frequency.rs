//! Frequency tuner widget.
//!
//! The readout `"NNN.NNN NNN MHz"` has nine tunable digits. Scrolling over a digit tunes its
//! decade, a click pins the digit, the arrow keys tune the pinned digit while the widget has
//! keyboard focus, and a double click opens a text entry.

use vstd::arithmetic::power2::*;
use vstd::prelude::*;
use vstd::string::*;

use crate::decimal;
use crate::number;
use crate::text;
use crate::theme;
use crate::theme::Color;
use crate::tuning;

verus! {

/// Number of tunable digits.
pub const DIGITS: usize = 9;

/// The 10 kHz column, tuned when no digit was chosen.
pub const DEFAULT_DIGIT: usize = 4;

/// Frames of red tint after a move was stopped at the lowest frequency.
pub const CLAMP_TICKS: u8 = 45;

pub const FREQ_COLOR: u32 = 0xB4E6FF;

pub const FREQ_ACTIVE_BG: u32 = 0xFFD23C37;

pub const FREQ_HOVER_BG: u32 = 0x64B4FF23;

pub const FREQ_BG: u32 = 0x141C26;

pub const FREQ_BG_CLAMPED: u32 = 0x3C1414;

/// Step in hertz of a digit position: 100 MHz for position 0 down to 1 Hz for position 8.
pub open spec fn digit_step(digit: int) -> nat {
    decimal::pow10((8 - digit) as nat)
}

/// Index of a digit position within `"NNN.NNN NNN MHz"`.
pub open spec fn digit_char_index(digit: int) -> int {
    if digit < 3 {
        digit
    } else if digit < 6 {
        digit + 1
    } else {
        digit + 2
    }
}

/// Step sizes per scroll tick for each digit group.
#[derive(Debug, Clone, Copy, PartialEq, Eq, Structural)]
pub enum TuneStep {
    GHz,
    MHz100,
    MHz10,
    MHz1,
    KHz100,
    KHz10,
    KHz1,
    Hz100,
    Hz10,
    Hz1,
}

impl TuneStep {
    /// The step in hertz.
    #[verifier::allow_in_spec]
    pub fn hz(self) -> i64
        returns
            (match self {
                TuneStep::GHz => 1_000_000_000i64,
                TuneStep::MHz100 => 100_000_000,
                TuneStep::MHz10 => 10_000_000,
                TuneStep::MHz1 => 1_000_000,
                TuneStep::KHz100 => 100_000,
                TuneStep::KHz10 => 10_000,
                TuneStep::KHz1 => 1_000,
                TuneStep::Hz100 => 100,
                TuneStep::Hz10 => 10,
                TuneStep::Hz1 => 1,
            }),
    {
        match self {
            TuneStep::GHz => 1_000_000_000,
            TuneStep::MHz100 => 100_000_000,
            TuneStep::MHz10 => 10_000_000,
            TuneStep::MHz1 => 1_000_000,
            TuneStep::KHz100 => 100_000,
            TuneStep::KHz10 => 10_000,
            TuneStep::KHz1 => 1_000,
            TuneStep::Hz100 => 100,
            TuneStep::Hz10 => 10,
            TuneStep::Hz1 => 1,
        }
    }

    /// The step of one scroll tick: 10 kHz.
    pub fn default_for_scroll() -> (r: i64)
        ensures
            r == 10_000,
    {
        TuneStep::KHz10.hz()
    }
}

// ── Text forms ──────────────────────────────────────────────────────────────

/// The readout of a frequency: `"NNN.NNN NNN MHz"`, or `"N.NNN GHz"` from 1 GHz on.
pub open spec fn frequency_text(hz: nat) -> Seq<char> {
    if hz >= 1_000_000_000 {
        text::dec(hz / 1_000_000_000).push('.') + text::dec_fixed(
            (hz % 1_000_000_000) / 1_000_000,
            3,
        ) + " GHz"@
    } else {
        text::dec_blank(hz / 1_000_000, 3).push('.') + text::dec_fixed(
            (hz % 1_000_000) / 1_000,
            3,
        ).push(' ') + text::dec_fixed(hz % 1_000, 3) + " MHz"@
    }
}

/// Formats a frequency in hertz as `"NNN.NNN NNN MHz"`.
pub fn format_frequency(hz: u64) -> (r: String)
    ensures
        r@ == frequency_text(hz as nat),
{
    let mut s: String = String::new();
    if hz >= 1_000_000_000 {
        text::push_dec(&mut s, hz / 1_000_000_000);
        s.push('.');
        text::push_dec_fixed(&mut s, (hz % 1_000_000_000) / 1_000_000, 3);
        s.append(" GHz");
    } else {
        text::push_dec_blank(&mut s, hz / 1_000_000, 3);
        s.push('.');
        text::push_dec_fixed(&mut s, (hz % 1_000_000) / 1_000, 3);
        s.push(' ');
        text::push_dec_fixed(&mut s, hz % 1_000, 3);
        s.append(" MHz");
    }
    assert(s@ =~= frequency_text(hz as nat));
    s
}

/// The label of a step size; anything that is no known decade counts as 1 Hz.
pub open spec fn step_text(hz: u64) -> Seq<char> {
    if hz == 1_000_000_000 {
        "1 GHz"@
    } else if hz == 100_000_000 {
        "100 MHz"@
    } else if hz == 10_000_000 {
        "10 MHz"@
    } else if hz == 1_000_000 {
        "1 MHz"@
    } else if hz == 100_000 {
        "100 kHz"@
    } else if hz == 10_000 {
        "10 kHz"@
    } else if hz == 1_000 {
        "1 kHz"@
    } else if hz == 100 {
        "100 Hz"@
    } else if hz == 10 {
        "10 Hz"@
    } else {
        "1 Hz"@
    }
}

pub fn step_label(hz: u64) -> (r: &'static str)
    ensures
        r@ == step_text(hz),
{
    match hz {
        1_000_000_000 => "1 GHz",
        100_000_000 => "100 MHz",
        10_000_000 => "10 MHz",
        1_000_000 => "1 MHz",
        100_000 => "100 kHz",
        10_000 => "10 kHz",
        1_000 => "1 kHz",
        100 => "100 Hz",
        10 => "10 Hz",
        _ => "1 Hz",
    }
}

// ── Parsing ─────────────────────────────────────────────────────────────────

pub open spec fn positive(hz: nat) -> Option<u64> {
    if hz > 0 {
        Some(hz as u64)
    } else {
        None
    }
}

/// A decimal number of units of `factor` hertz, in hertz.
pub open spec fn scaled_text(s: Seq<char>, factor: nat) -> Option<u64> {
    match number::literal(s) {
        Some(l) => positive(number::scaled(l, factor)),
        None => None,
    }
}

/// The digits of an unsigned whole number, without the `+` that may stand in front.
pub open spec fn whole_number_digits(s: Seq<char>) -> Seq<char> {
    if s.len() > 0 && s[0] == '+' {
        s.skip(1)
    } else {
        s
    }
}

/// Whether `s` is a whole number that fits 64 bits.
pub open spec fn is_whole_number(s: Seq<char>) -> bool {
    let d = whole_number_digits(s);
    d.len() > 0 && text::all_digits(d) && text::dec_value(d) <= u64::MAX
}

/// A whole number without unit: megahertz below 300, kilohertz below 300 000, else hertz.
pub open spec fn guessed_unit(v: nat) -> nat {
    if v < 300 {
        v * 1_000_000
    } else if v < 300_000 {
        v * 1_000
    } else {
        v
    }
}

/// The frequency that a trimmed lower-case text denotes.
pub open spec fn frequency_value(s: Seq<char>) -> Option<u64> {
    if text::ends_with(s, "ghz"@) {
        scaled_text(text::trimmed(s.take(s.len() - 3)), 1_000_000_000)
    } else if text::ends_with(s, "mhz"@) {
        scaled_text(text::trimmed(s.take(s.len() - 3)), 1_000_000)
    } else if text::ends_with(s, "khz"@) {
        scaled_text(text::trimmed(s.take(s.len() - 3)), 1_000)
    } else if text::ends_with(s, "hz"@) {
        scaled_text(text::trimmed(s.take(s.len() - 2)), 1)
    } else {
        let t = text::trimmed(s);
        if t.contains('.') {
            scaled_text(t, 1_000_000)
        } else if is_whole_number(t) {
            positive(guessed_unit(text::dec_value(whole_number_digits(t))))
        } else {
            None
        }
    }
}

/// Parses a frequency typed by the user: a number with the unit GHz, MHz, kHz or Hz in any case,
/// a decimal number of megahertz, or a whole number whose size decides the unit.
pub fn parse_frequency(raw: &str) -> (r: Option<u64>)
    ensures
        r == frequency_value(text::lowercased(text::trimmed(raw@))),
        text::is_ascii_text(text::trimmed(raw@)) ==> r == frequency_value(
            text::ascii_lower(text::trimmed(raw@)),
        ),
        forall|v: u64| raw@ == #[trigger] text::dec(v as nat) ==> is_read_as(v, r),
{
    proof {
        assert forall|v: u64| raw@ == #[trigger] text::dec(v as nat) implies is_read_as(
            v,
            frequency_value(text::ascii_lower(text::trimmed(raw@))),
        ) by {
            law_size_decides_the_unit(v);
        }
        assert forall|v: u64| raw@ == #[trigger] text::dec(v as nat) implies text::is_ascii_text(
            text::trimmed(raw@),
        ) by {
            law_size_decides_the_unit(v);
        }
    }
    let t: String = text::trim(raw);
    let s: String = text::lowercase(t.as_str());
    parse_lowercase_frequency(s.as_str())
}

fn scale_positive(v: &Vec<char>, to: usize, factor: u64) -> (r: Option<u64>)
    requires
        to <= v@.len(),
        1 <= factor <= 1_000_000_000,
    ensures
        r == scaled_text(text::trimmed(v@.take(to as int)), factor as nat),
{
    let head: String = text::from_chars(v, 0, to);
    assert(head@ =~= v@.take(to as int));
    let t: String = text::trim(head.as_str());
    match number::scale_literal(t.as_str(), factor) {
        Some(hz) => if hz > 0 {
            Some(hz)
        } else {
            None
        },
        None => None,
    }
}

fn contains_char(v: &Vec<char>, c: char) -> (r: bool)
    ensures
        r == v@.contains(c),
{
    let mut i: usize = 0;
    while i < v.len()
        invariant
            i <= v.len(),
            forall|j: int| 0 <= j < i ==> v@[j] != c,
        decreases v.len() - i,
    {
        if v[i] == c {
            return true;
        }
        i += 1;
    }
    false
}

/// Reads an unsigned 64-bit number.
pub fn parse_whole_number(v: &Vec<char>) -> (r: Option<u64>)
    ensures
        match r {
            Some(n) => is_whole_number(v@) && n == text::dec_value(whole_number_digits(v@)),
            None => !is_whole_number(v@),
        },
{
    let from: usize = if v.len() > 0 && v[0] == '+' {
        1
    } else {
        0
    };
    let ghost d = whole_number_digits(v@);
    assert(d =~= v@.skip(from as int));
    if from == v.len() {
        return None;
    }
    let mut acc: u64 = 0;
    let mut i: usize = from;
    assert(d.take(0) =~= Seq::<char>::empty());
    while i < v.len()
        invariant
            from <= i <= v.len(),
            d == whole_number_digits(v@),
            d == v@.skip(from as int),
            acc == text::dec_value(d.take(i - from)),
            forall|j: int| 0 <= j < i - from ==> text::is_digit(#[trigger] d[j]),
        decreases v.len() - i,
    {
        let c: char = v[i];
        if c < '0' || c > '9' {
            assert(!text::is_digit(d[i - from]));
            return None;
        }
        let k: u64 = c as u64 - '0' as u64;
        proof {
            let t = d.take(i + 1 - from);
            assert(t.drop_last() =~= d.take(i - from));
            assert(t.last() == c);
        }
        if acc > (0xffff_ffff_ffff_ffff - k) / 10 {
            proof {
                assert(text::dec_value(d.take(i + 1 - from)) > u64::MAX);
                lemma_prefix_smaller(d, i + 1 - from);
            }
            return None;
        }
        acc = acc * 10 + k;
        i += 1;
    }
    assert(d.take(d.len() as int) =~= d);
    Some(acc)
}

/// Digits that follow make a number no smaller.
proof fn lemma_prefix_smaller(d: Seq<char>, n: int)
    requires
        0 <= n <= d.len(),
    ensures
        text::dec_value(d.take(n)) <= text::dec_value(d),
    decreases d.len() - n,
{
    if n < d.len() {
        lemma_prefix_smaller(d, n + 1);
        assert(d.take(n + 1).drop_last() =~= d.take(n));
    } else {
        assert(d.take(n) =~= d);
    }
}

/// Parses a frequency from text that is already trimmed and in lower case.
pub fn parse_lowercase_frequency(s: &str) -> (r: Option<u64>)
    ensures
        r == frequency_value(s@),
        forall|v: u64| s@ == #[trigger] text::dec(v as nat) ==> is_read_as(v, r),
{
    proof {
        assert forall|v: u64| s@ == #[trigger] text::dec(v as nat) implies is_read_as(
            v,
            frequency_value(s@),
        ) by {
            law_size_decides_the_unit(v);
        }
    }
    let v: Vec<char> = text::to_chars(s);
    let len: usize = v.len();
    proof {
        reveal_strlit("ghz");
        reveal_strlit("mhz");
        reveal_strlit("khz");
        reveal_strlit("hz");
    }
    if text::chars_end_with(&v, "ghz") {
        return scale_positive(&v, len - 3, 1_000_000_000);
    }
    if text::chars_end_with(&v, "mhz") {
        return scale_positive(&v, len - 3, 1_000_000);
    }
    if text::chars_end_with(&v, "khz") {
        return scale_positive(&v, len - 3, 1_000);
    }
    if text::chars_end_with(&v, "hz") {
        return scale_positive(&v, len - 2, 1);
    }
    let t: String = text::trim(s);
    let w: Vec<char> = text::to_chars(t.as_str());
    if contains_char(&w, '.') {
        return match number::scale_literal(t.as_str(), 1_000_000) {
            Some(hz) => if hz > 0 {
                Some(hz)
            } else {
                None
            },
            None => None,
        };
    }
    match parse_whole_number(&w) {
        Some(n) => {
            let hz: u64 = if n < 300 {
                n * 1_000_000
            } else if n < 300_000 {
                n * 1_000
            } else {
                n
            };
            if hz > 0 {
                Some(hz)
            } else {
                None
            }
        },
        None => None,
    }
}

/// The whole number `v` without a unit was read as the frequency `r`: as megahertz below 300, as
/// kilohertz from 300 to 299 999, as hertz from 300 000 on; zero is no frequency.
pub open spec fn is_read_as(v: u64, r: Option<u64>) -> bool {
    &&& v == 0 ==> r is None
    &&& 0 < v < 300 ==> r == Some((v * 1_000_000) as u64)
    &&& 300 <= v < 300_000 ==> r == Some((v * 1_000) as u64)
    &&& 300_000 <= v ==> r == Some(v)
}

/// The size of a whole number typed without a unit decides the unit: megahertz below 300,
/// kilohertz from 300 to 299 999, hertz from 300 000 on. Zero is refused.
pub proof fn law_size_decides_the_unit(v: u64)
    ensures
        v == 0 ==> frequency_value(text::dec(v as nat)) is None,
        0 < v < 300 ==> frequency_value(text::dec(v as nat)) == Some((v * 1_000_000) as u64),
        300 <= v < 300_000 ==> frequency_value(text::dec(v as nat)) == Some((v * 1_000) as u64),
        300_000 <= v ==> frequency_value(text::dec(v as nat)) == Some(v),
        text::trimmed(text::dec(v as nat)) == text::dec(v as nat),
        text::ascii_lower(text::dec(v as nat)) == text::dec(v as nat),
        text::is_ascii_text(text::dec(v as nat)),
{
    let s = text::dec(v as nat);
    text::lemma_dec_round_trip(v as nat);
    assert(text::is_digit(s[0]));
    assert(text::is_digit(s.last()));
    assert(text::trimmed(s) == s);
    assert(text::ascii_lower(s) =~= s) by {
        assert forall|i: int| 0 <= i < s.len() implies text::ascii_lower(s)[i] == s[i] by {
            assert(text::is_digit(s[i]));
        }
    }
    assert forall|i: int| 0 <= i < s.len() implies (#[trigger] s[i]) as int <= 127 by {
        assert(text::is_digit(s[i]));
    }
    lemma_no_unit(s);
    assert(!s.contains('.')) by {
        assert forall|i: int| 0 <= i < s.len() implies s[i] != '.' by {
            assert(text::is_digit(s[i]));
        }
    }
    assert(whole_number_digits(s) == s);
}

/// A text that ends in a digit ends in no unit.
proof fn lemma_no_unit(s: Seq<char>)
    requires
        s.len() > 0,
        text::is_digit(s.last()),
    ensures
        !text::ends_with(s, "ghz"@),
        !text::ends_with(s, "mhz"@),
        !text::ends_with(s, "khz"@),
        !text::ends_with(s, "hz"@),
{
    reveal_strlit("ghz");
    reveal_strlit("mhz");
    reveal_strlit("khz");
    reveal_strlit("hz");
    if s.len() >= 3 {
        assert(s.skip(s.len() - 3)[2] == s.last());
    }
    if s.len() >= 2 {
        assert(s.skip(s.len() - 2)[1] == s.last());
    }
}

// ── Widget ──────────────────────────────────────────────────────────────────

/// Direction of a scroll beyond the dead zone.
#[derive(Clone, Copy, PartialEq, Eq, Structural, Debug)]
pub enum Scroll {
    Idle,
    Up,
    Down,
}

/// What the user did to the readout in one frame.
#[derive(Clone, Copy)]
pub struct DisplayInput {
    /// The digit under the pointer.
    pub hovered_digit: Option<usize>,
    /// The pointer is over the widget.
    pub in_widget: bool,
    /// The widget was clicked.
    pub clicked: bool,
    /// Something was clicked.
    pub any_click: bool,
    pub double_clicked: bool,
    pub scroll: Scroll,
    pub arrow_up: bool,
    pub arrow_down: bool,
}

/// What the user did to the text entry in one frame.
pub struct EditInput {
    /// The text in the entry.
    pub text: String,
    /// Enter or Tab was pressed.
    pub enter: bool,
    pub escape: bool,
    pub lost_focus: bool,
}

/// What one frame of the readout asks for.
#[derive(Clone, Copy)]
pub struct DisplayFrame {
    /// The new frequency, when the user changed it.
    pub new_freq: Option<u64>,
    /// Another frame is needed soon.
    pub repaint: bool,
}

pub struct FrequencyWidget {
    /// Current frequency in hertz.
    pub frequency_hz: u64,
    /// Step of the nudge buttons.
    pub step_hz: i64,
    /// Frames of red tint that are left.
    pub clamped_ticks: u8,
    /// The digit (0 to 8) that was last clicked or scrolled.
    pub active_digit: Option<usize>,
    /// Whether the arrow keys tune the active digit.
    pub has_keyboard_focus: bool,
    /// True while the text entry is open.
    pub editing: bool,
    /// Text of the entry.
    pub edit_text: String,
}

/// The digit shown at a character of the readout.
pub fn digit_at_char(char_idx: usize) -> (r: Option<usize>)
    ensures
        match r {
            Some(d) => d < DIGITS && digit_char_index(d as int) == char_idx,
            None => forall|d: int| 0 <= d < DIGITS ==> #[trigger] digit_char_index(d) != char_idx,
        },
{
    if char_idx < 3 {
        Some(char_idx)
    } else if 4 <= char_idx && char_idx < 7 {
        Some(char_idx - 1)
    } else if 8 <= char_idx && char_idx < 11 {
        Some(char_idx - 2)
    } else {
        None
    }
}

/// The character of the readout that shows a digit.
pub fn char_of_digit(digit: usize) -> (r: usize)
    requires
        digit < DIGITS,
    ensures
        r == digit_char_index(digit as int),
{
    if digit < 3 {
        digit
    } else if digit < 6 {
        digit + 1
    } else {
        digit + 2
    }
}

/// The step of a digit in hertz.
pub fn digit_step_hz(digit: usize) -> (r: u64)
    requires
        digit < DIGITS,
    ensures
        r == digit_step(digit as int),
        1 <= r <= 100_000_000,
{
    proof {
        reveal_with_fuel(decimal::pow10, 9);
    }
    match digit {
        0 => 100_000_000,
        1 => 10_000_000,
        2 => 1_000_000,
        3 => 100_000,
        4 => 10_000,
        5 => 1_000,
        6 => 100,
        7 => 10,
        _ => 1,
    }
}

/// The highlight behind a digit.
pub open spec fn highlight_spec(
    a: &FrequencyWidget,
    digit: usize,
    hovered: Option<usize>,
) -> Option<Color> {
    if hovered == Some(digit) {
        Some(theme::rgba(FREQ_HOVER_BG))
    } else if a.active_digit == Some(digit) {
        Some(theme::rgba(FREQ_ACTIVE_BG))
    } else {
        None
    }
}

/// The background of the readout.
pub open spec fn background_spec(a: &FrequencyWidget) -> Color {
    if a.clamped_ticks > 0 {
        theme::rgb(FREQ_BG_CLAMPED)
    } else {
        theme::rgb(FREQ_BG)
    }
}

impl FrequencyWidget {
    /// The active digit, if any, is one of the nine.
    pub open spec fn wf(&self) -> bool {
        self.active_digit is Some ==> self.active_digit->0 < DIGITS
    }

    /// The step that a frame of the readout asks for, if any, stays within the signed range.
    pub open spec fn can_take(&self, input: DisplayInput) -> bool {
        !input.double_clicked ==> match tuned(*self, input) {
            Some((digit, up)) => tuning::can_move(
                self.frequency_hz,
                signed_step(digit as int, up),
            ),
            None => true,
        }
    }

    pub fn new(frequency_hz: u64) -> (r: Self)
        ensures
            r.wf(),
            r.frequency_hz == frequency_hz,
            r.step_hz == 10_000,
            r.clamped_ticks == 0,
            r.active_digit is None,
            !r.has_keyboard_focus,
            !r.editing,
            r.edit_text@ == Seq::<char>::empty(),
    {
        FrequencyWidget {
            frequency_hz,
            step_hz: TuneStep::default_for_scroll(),
            clamped_ticks: 0,
            active_digit: None,
            has_keyboard_focus: false,
            editing: false,
            edit_text: String::new(),
        }
    }

    /// One frame: the text entry when it is open, the readout otherwise.
    pub fn show(&mut self, display: DisplayInput, edit: EditInput) -> (r: DisplayFrame)
        requires
            old(self).wf(),
            !old(self).editing ==> old(self).can_take(display),
            display.hovered_digit is Some ==> display.hovered_digit->0 < DIGITS,
        ensures
            final(self).wf(),
            old(self).editing ==> after_edit(*old(self), edit, *final(self), r.new_freq)
                && !r.repaint,
            !old(self).editing ==> after_display(*old(self), display, *final(self), r),
            r.new_freq == changed(old(self).frequency_hz, final(self).frequency_hz),
            r.new_freq is Some ==> r.new_freq->0 >= 1,
    {
        if self.editing {
            let new_freq: Option<u64> = self.show_edit(edit);
            DisplayFrame { new_freq, repaint: false }
        } else {
            self.show_normal(display)
        }
    }

    /// One frame of the readout.
    pub fn show_normal(&mut self, input: DisplayInput) -> (r: DisplayFrame)
        requires
            old(self).wf(),
            old(self).can_take(input),
            input.hovered_digit is Some ==> input.hovered_digit->0 < DIGITS,
        ensures
            final(self).wf(),
            after_display(*old(self), input, *final(self), r),
    {
        let step: Option<(usize, bool)> = self.chosen_step(input);
        if input.clicked {
            if input.hovered_digit.is_some() {
                self.active_digit = input.hovered_digit;
            } else if self.active_digit.is_none() {
                self.active_digit = Some(DEFAULT_DIGIT);
            }
            self.has_keyboard_focus = true;
        }
        if input.any_click && !input.clicked {
            self.has_keyboard_focus = false;
        }
        if input.double_clicked {
            self.editing = true;
            self.has_keyboard_focus = false;
            let mut mhz: String = String::new();
            decimal::push_quotient(&mut mhz, self.frequency_hz, 1_000_000, 3);
            assert(mhz@ =~= decimal::quotient_text(self.frequency_hz as nat, 1_000_000, 3));
            self.edit_text = mhz;
            return DisplayFrame { new_freq: None, repaint: false };
        }
        let by_arrow: bool = self.has_keyboard_focus && (input.arrow_up || input.arrow_down);
        let mut repaint: bool = by_arrow;
        let mut new_freq: Option<u64> = None;
        if let Some((digit, up)) = step {
            let before: u64 = self.frequency_hz;
            let hz: u64 = self.step_digit(digit, up);
            if hz != before {
                new_freq = Some(hz);
            }
            if !by_arrow && input.hovered_digit.is_some() {
                self.active_digit = input.hovered_digit;
            }
        }
        if self.clamped_ticks > 0 {
            self.clamped_ticks = self.clamped_ticks - 1;
            repaint = true;
        }
        DisplayFrame { new_freq, repaint }
    }

    /// The digit that a frame tunes and the direction, if any.
    fn chosen_step(&self, input: DisplayInput) -> (r: Option<(usize, bool)>)
        requires
            self.wf(),
            input.hovered_digit is Some ==> input.hovered_digit->0 < DIGITS,
        ensures
            r == tuned(*self, input),
            r is Some ==> (r->0).0 < DIGITS,
    {
        let mut pinned: Option<usize> = self.active_digit;
        if input.clicked {
            if input.hovered_digit.is_some() {
                pinned = input.hovered_digit;
            } else if self.active_digit.is_none() {
                pinned = Some(DEFAULT_DIGIT);
            }
        }
        let pinned_or_default: usize = match pinned {
            Some(d) => d,
            None => DEFAULT_DIGIT,
        };
        let focus: bool = input.clicked || (self.has_keyboard_focus && !input.any_click);
        if focus && (input.arrow_up || input.arrow_down) {
            Some((pinned_or_default, input.arrow_up))
        } else if input.scroll != Scroll::Idle && input.in_widget {
            let digit: usize = match input.hovered_digit {
                Some(d) => d,
                None => pinned_or_default,
            };
            Some((digit, input.scroll == Scroll::Up))
        } else {
            None
        }
    }

    /// Whether a frame of the readout can be taken: the step that it asks for stays within the
    /// signed range.
    pub fn accepts(&self, input: DisplayInput) -> (r: bool)
        requires
            self.wf(),
            input.hovered_digit is Some ==> input.hovered_digit->0 < DIGITS,
        ensures
            r == self.can_take(input),
    {
        if input.double_clicked {
            return true;
        }
        match self.chosen_step(input) {
            Some((digit, up)) => {
                let hz: i64 = tuning::to_signed(self.frequency_hz);
                let step: i64 = digit_step_hz(digit) as i64;
                if up {
                    hz <= i64::MAX - step
                } else {
                    hz >= i64::MIN + step
                }
            },
            None => true,
        }
    }

    /// Moves the frequency by one step of `digit`, and marks a move stopped at 1 Hz.
    fn step_digit(&mut self, digit: usize, up: bool) -> (r: u64)
        requires
            digit < DIGITS,
            tuning::can_move(old(self).frequency_hz, signed_step(digit as int, up)),
        ensures
            r == tuning::moved(old(self).frequency_hz, signed_step(digit as int, up)),
            *final(self) == (FrequencyWidget {
                frequency_hz: r,
                clamped_ticks: if tuning::as_signed(old(self).frequency_hz) + signed_step(
                    digit as int,
                    up,
                ) < 1 {
                    CLAMP_TICKS
                } else {
                    old(self).clamped_ticks
                },
                ..*old(self)
            }),
    {
        let step: i64 = digit_step_hz(digit) as i64;
        let delta: i64 = if up {
            step
        } else {
            -step
        };
        let raw: i64 = tuning::to_signed(self.frequency_hz) + delta;
        let hz: u64 = tuning::move_by(self.frequency_hz, delta);
        if raw < 1 {
            self.clamped_ticks = CLAMP_TICKS;
        }
        self.frequency_hz = hz;
        hz
    }

    /// One frame of the text entry.
    pub fn show_edit(&mut self, input: EditInput) -> (new_freq: Option<u64>)
        ensures
            old(self).wf() ==> final(self).wf(),
            after_edit(*old(self), input, *final(self), new_freq),
            forall|v: u64|
                v > 0 && input.text@ == #[trigger] text::dec(v as nat) && !input.escape && (
                input.enter || input.lost_focus) ==> is_read_as(
                    v,
                    Some(final(self).frequency_hz),
                ),
    {
        self.edit_text = input.text;
        let mut new_freq: Option<u64> = None;
        if input.escape {
            self.editing = false;
        } else if input.enter || input.lost_focus {
            if let Some(hz) = parse_frequency(self.edit_text.as_str()) {
                if hz != self.frequency_hz {
                    self.frequency_hz = hz;
                    new_freq = Some(hz);
                }
            }
            self.editing = false;
        }
        new_freq
    }

    /// Background of the readout.
    pub fn background(&self) -> (c: Color)
        ensures
            c == background_spec(self),
    {
        if self.clamped_ticks > 0 {
            theme::rgb(FREQ_BG_CLAMPED)
        } else {
            theme::rgb(FREQ_BG)
        }
    }

    /// Highlight behind a digit: under the pointer first, then the active one.
    pub fn highlight(&self, digit: usize, hovered: Option<usize>) -> (c: Option<Color>)
        ensures
            c == highlight_spec(self, digit, hovered),
    {
        if let Some(h) = hovered {
            if h == digit {
                return Some(theme::rgba(FREQ_HOVER_BG));
            }
        }
        if let Some(a) = self.active_digit {
            if a == digit {
                return Some(theme::rgba(FREQ_ACTIVE_BG));
            }
        }
        None
    }

    /// Tooltip for the digit under the pointer, or else for the active one.
    pub fn tooltip(&self, hovered: Option<usize>) -> (r: Option<String>)
        requires
            self.wf(),
            hovered is Some ==> hovered->0 < DIGITS,
        ensures
            match tooltip_digit(*self, hovered) {
                Some(d) => r is Some && r->0@ == "Scroll to tune ±"@ + step_text(
                    digit_step(d as int) as u64,
                ) + "\nDouble-click to type a frequency"@,
                None => r is None,
            },
    {
        let digit: usize = match hovered {
            Some(d) => d,
            None => match self.active_digit {
                Some(d) => d,
                None => {
                    return None;
                },
            },
        };
        let mut s: String = text::owned("Scroll to tune ±");
        s.append(step_label(digit_step_hz(digit)));
        s.append("\nDouble-click to type a frequency");
        Some(s)
    }
}

pub open spec fn tooltip_digit(w: FrequencyWidget, hovered: Option<usize>) -> Option<usize> {
    if hovered is Some {
        hovered
    } else {
        w.active_digit
    }
}

/// The signed step of a digit.
pub open spec fn signed_step(digit: int, up: bool) -> int {
    if up {
        digit_step(digit) as int
    } else {
        -(digit_step(digit) as int)
    }
}

/// The active digit once a click is taken in: the digit under the pointer, else the one that was
/// active, else the 10 kHz column.
pub open spec fn pinned_digit(w: FrequencyWidget, i: DisplayInput) -> Option<usize> {
    if !i.clicked {
        w.active_digit
    } else if i.hovered_digit is Some {
        i.hovered_digit
    } else if w.active_digit is Some {
        w.active_digit
    } else {
        Some(DEFAULT_DIGIT)
    }
}

/// Keyboard focus once clicks are taken in: gained by a click on the widget, lost by any other.
pub open spec fn focus_after(w: FrequencyWidget, i: DisplayInput) -> bool {
    i.clicked || (w.has_keyboard_focus && !i.any_click)
}

/// The digit that this frame tunes and the direction, if any: the arrow keys go first.
pub open spec fn tuned(w: FrequencyWidget, i: DisplayInput) -> Option<(usize, bool)> {
    let pinned = pinned_digit(w, i);
    if focus_after(w, i) && (i.arrow_up || i.arrow_down) {
        Some((if pinned is Some { pinned->0 } else { DEFAULT_DIGIT }, i.arrow_up))
    } else if i.scroll != Scroll::Idle && i.in_widget {
        let digit = if i.hovered_digit is Some {
            i.hovered_digit->0
        } else if pinned is Some {
            pinned->0
        } else {
            DEFAULT_DIGIT
        };
        Some((digit, i.scroll == Scroll::Up))
    } else {
        None
    }
}

/// Whether this frame tunes by the keyboard.
pub open spec fn by_arrow(w: FrequencyWidget, i: DisplayInput) -> bool {
    focus_after(w, i) && (i.arrow_up || i.arrow_down)
}

/// The red-tint frames before this frame counts one off.
pub open spec fn ticks_before_count(w: FrequencyWidget, i: DisplayInput) -> u8 {
    match tuned(w, i) {
        Some((digit, up)) => if tuning::as_signed(w.frequency_hz) + signed_step(digit as int, up)
            < 1 {
            CLAMP_TICKS
        } else {
            w.clamped_ticks
        },
        None => w.clamped_ticks,
    }
}

/// What a frame of the readout does.
pub open spec fn after_display(
    w: FrequencyWidget,
    i: DisplayInput,
    n: FrequencyWidget,
    r: DisplayFrame,
) -> bool {
    if i.double_clicked {
        // The entry opens with the frequency in megahertz.
        &&& n.edit_text@ == decimal::quotient_text(w.frequency_hz as nat, 1_000_000, 3)
        &&& n == (FrequencyWidget {
            editing: true,
            has_keyboard_focus: false,
            active_digit: pinned_digit(w, i),
            edit_text: n.edit_text,
            ..w
        })
        &&& r.new_freq is None
        &&& !r.repaint
    } else {
        let hz = match tuned(w, i) {
            Some((digit, up)) => tuning::moved(w.frequency_hz, signed_step(digit as int, up)),
            None => w.frequency_hz,
        };
        let ticks = ticks_before_count(w, i);
        &&& n == (FrequencyWidget {
            frequency_hz: hz,
            clamped_ticks: if ticks > 0 {
                (ticks - 1) as u8
            } else {
                0
            },
            active_digit: if tuned(w, i) is Some && !by_arrow(w, i) && i.hovered_digit is Some {
                i.hovered_digit
            } else {
                pinned_digit(w, i)
            },
            has_keyboard_focus: focus_after(w, i),
            ..w
        })
        &&& r.new_freq == changed(w.frequency_hz, hz)
        &&& r.repaint == (by_arrow(w, i) || ticks > 0)
    }
}

/// The new frequency, when it differs from the old one.
pub open spec fn changed(before: u64, after: u64) -> Option<u64> {
    if after == before {
        None
    } else {
        Some(after)
    }
}

/// The frequency that a text entry commits.
pub open spec fn committed(i: EditInput) -> Option<u64> {
    if !i.escape && (i.enter || i.lost_focus) {
        frequency_value(text::lowercased(text::trimmed(i.text@)))
    } else {
        None
    }
}

/// What a frame of the text entry does: Escape closes it, Enter, Tab or a lost focus close it and
/// take over the frequency when the text denotes one.
pub open spec fn after_edit(
    w: FrequencyWidget,
    i: EditInput,
    n: FrequencyWidget,
    new_freq: Option<u64>,
) -> bool {
    let hz = match committed(i) {
        Some(hz) => hz,
        None => w.frequency_hz,
    };
    &&& new_freq == changed(w.frequency_hz, hz)
    &&& n == (FrequencyWidget {
        frequency_hz: hz,
        editing: w.editing && !i.escape && !i.enter && !i.lost_focus,
        edit_text: i.text,
        ..w
    })
}

// ── The entry's first text ──────────────────────────────────────────────────

/// The error of the double nearest to `k / 1000`.
proof fn lemma_thousandths(k: nat)
    requires
        0 < k < 0x100_0000_0000,
    ensures
        ({
            let x = decimal::nearest_binary(k, 1_000, 53);
            &&& x.1 > 0
            &&& x.0 * 1_000 <= k * x.1 + 500
            &&& k * x.1 <= x.0 * 1_000 + 500
            &&& k * x.1 >= 1_000 * 0x10_0000_0000_0000
        }),
{
    lemma2_to64();
    lemma2_to64_rest();
    let s = decimal::scale(k, 1_000, 53);
    lemma_pow2_pos(s);
    assert(k < 1_000 * pow2(53));
    number::lemma_scale_reaches(k, 1_000, 53);
    decimal::lemma_round_tight(k * pow2(s), 1_000);
}

/// A frequency of whole kilohertz is shown exactly with three decimals of a megahertz.
proof fn lemma_khz_shown(k: nat)
    requires
        0 < k < 0x100_0000_0000,
    ensures
        decimal::shown(1_000 * k, 1_000_000, 3) == k,
{
    lemma2_to64();
    lemma2_to64_rest();
    reveal_with_fuel(decimal::pow10, 4);
    decimal::lemma_small_is_double(1_000 * k);
    let n = 1_000 * k;
    let s = decimal::scale(n, 1_000_000, 53);
    let p = pow2(s);
    lemma_pow2_pos(s);
    number::lemma_scale_reaches(n, 1_000_000, 53);
    let m = decimal::round_half_even(n * p, 1_000_000);
    decimal::lemma_round_tight(n * p, 1_000_000);
    assert(n * p == 1_000 * (k * p)) by (nonlinear_arith)
        requires
            n == 1_000 * k,
    ;
    assert(p > 1_000) by (nonlinear_arith)
        requires
            1_000 * (k * p) >= 1_000_000 * 0x10_0000_0000_0000,
            k < 0x100_0000_0000,
    ;
    decimal::lemma_round_near(m * 1_000, p, k);
}

/// `k / 1000` megahertz, read as a double and scaled, is `k` kilohertz.
proof fn lemma_khz_scaled(k: nat)
    requires
        0 < k < 0x100_0000_0000,
    ensures
        number::scaled_quotient(k, 1_000, 1_000_000) == 1_000 * k,
{
    lemma_thousandths(k);
    let x = decimal::nearest_binary(k, 1_000, 53);
    let big = x.0 * 1_000_000;
    let y = decimal::to_double(big);
    number::lemma_double_tight(big);
    let t = k * x.1;
    // `t` is the exact product; 1000 t over x.1 is the wanted frequency.
    assert(x.1 >= 0x1000 * 1_000) by (nonlinear_arith)
        requires
            t == k * x.1,
            t >= 1_000 * 0x10_0000_0000_0000,
            k < 0x100_0000_0000,
    ;
    assert(t <= 0x100_0000_0000 * x.1) by (nonlinear_arith)
        requires
            t == k * x.1,
            k < 0x100_0000_0000,
    ;
    assert(2 * y + x.1 >= 2 * (1_000 * t));
    assert(2 * y + x.1 < 2 * (1_000 * t) + 2 * x.1);
    assert(1_000 * t == (1_000 * k) * x.1) by (nonlinear_arith)
        requires
            t == k * x.1,
    ;
    assert((2 * y + x.1) / (2 * x.1) == 1_000 * k) by {
        let r = (2 * y + x.1) - (1_000 * k) * (2 * x.1);
        assert((1_000 * k) * (2 * x.1) == 2 * ((1_000 * k) * x.1)) by (nonlinear_arith);
        vstd::arithmetic::div_mod::lemma_fundamental_div_mod_converse(
            (2 * y + x.1) as int,
            (2 * x.1) as int,
            (1_000 * k) as int,
            r,
        );
    }
}

/// The text of whole kilohertz denotes them.
proof fn lemma_khz_text_value(k: nat)
    requires
        0 < k < 0x100_0000_0000,
    ensures
        ({
            let s = decimal::fixed_text(k, 3);
            &&& text::trimmed(s) == s
            &&& text::ascii_lower(s) == s
            &&& text::is_ascii_text(s)
            &&& frequency_value(s) == Some((1_000 * k) as u64)
        }),
{
    reveal_with_fuel(decimal::pow10, 4);
    let a = k / 1_000;
    let b = k % 1_000;
    let whole = text::dec(a);
    let fraction = text::dec_fixed(b, 3);
    let s = decimal::fixed_text(k, 3);
    assert(s == whole.push('.') + fraction);
    text::lemma_dec_round_trip(a);
    text::lemma_dec_fixed(b, 3);
    assert forall|i: int| 0 <= i < s.len() implies text::is_digit(s[i]) || s[i] == '.' by {
        if i < whole.len() {
            assert(s[i] == whole[i]);
        } else if i > whole.len() {
            assert(s[i] == fraction[i - whole.len() - 1]);
        }
    }
    assert(s[0] == whole[0] && text::is_digit(whole[0]));
    assert(s.last() == fraction[2] && text::is_digit(fraction[2]));
    assert(s[whole.len() as int] == '.');
    assert(text::ascii_lower(s) =~= s);
    reveal_strlit("ghz");
    reveal_strlit("mhz");
    reveal_strlit("khz");
    reveal_strlit("hz");
    assert(s.len() >= 5);
    assert(s.skip(s.len() - 3)[2] == s.last());
    assert(s.skip(s.len() - 2)[1] == s.last());
    assert(text::trimmed(s) == s);
    // The literal is `a.bbb`.
    assert forall|i: int| 0 <= i < s.len() implies s[i] != 'e' by {
        assert(text::is_digit(s[i]) || s[i] == '.');
    }
    number::lemma_find_missing(s, 'e');
    assert(number::mantissa_part(s) =~= s);
    assert forall|i: int| 0 <= i < whole.len() implies whole[i] != '.' by {
        assert(text::is_digit(whole[i]));
    }
    number::lemma_find_after(whole, '.', fraction);
    assert(number::whole_digits(s) =~= whole);
    assert(number::fraction_digits(s) =~= fraction);
    assert(number::unsigned_part(s) == s);
    assert(text::dec_value(whole + fraction) == k) by {
        reveal_with_fuel(text::dec_fixed, 4);
        let t = whole + fraction;
        let t1 = t.drop_last();
        let t2 = t1.drop_last();
        assert(t2.drop_last() =~= whole);
        assert(t2.last() == text::digit_char((b / 10 / 10) % 10));
        assert(t1.last() == text::digit_char((b / 10) % 10));
        assert(t.last() == text::digit_char(b % 10));
        text::lemma_digit_char((b / 10 / 10) % 10);
        text::lemma_digit_char((b / 10) % 10);
        text::lemma_digit_char(b % 10);
        assert(text::dec_value(t2) == a * 10 + (b / 10 / 10) % 10);
        assert(text::dec_value(t1) == text::dec_value(t2) * 10 + (b / 10) % 10);
        assert(text::dec_value(t) == text::dec_value(t1) * 10 + b % 10);
    }
    lemma_khz_scaled(k);
}

/// Opening the entry on a frequency of whole kilohertz and committing its text unchanged keeps
/// the frequency.
pub proof fn law_untouched_entry_keeps_frequency(hz: u64)
    requires
        0 < hz,
        hz % 1_000 == 0,
        hz < 0x100_0000_0000 * 1_000,
    ensures
        ({
            let s = decimal::quotient_text(hz as nat, 1_000_000, 3);
            &&& text::is_ascii_text(text::trimmed(s))
            &&& frequency_value(text::ascii_lower(text::trimmed(s))) == Some(hz)
        }),
{
    let k = (hz / 1_000) as nat;
    assert(hz == 1_000 * k);
    lemma_khz_shown(k);
    lemma_khz_text_value(k);
}

// ── Laws of the readout ─────────────────────────────────────────────────────

/// The nine digits are decades: the last tunes 1 Hz, and each tunes ten times as much as the one on
/// its right, up to 100 MHz for the first.
pub proof fn law_digits_are_decades(d: int)
    requires
        0 <= d < 8,
    ensures
        digit_step(d) == 10 * digit_step(d + 1),
        digit_step(8) == 1,
        digit_step(4) == 10_000,
        digit_step(0) == 100_000_000,
{
    reveal_with_fuel(decimal::pow10, 9);
}

/// The digit that a position tunes is the digit that the readout shows there: below 1 GHz the
/// character of each position is the decimal digit of its decade, or a blank in place of a leading
/// zero of the megahertz.
pub proof fn law_readout_shows_the_tuned_digits(hz: nat, d: int)
    requires
        hz < 1_000_000_000,
        0 <= d < 9,
    ensures
        frequency_text(hz).len() == 15,
        ({
            let shown = frequency_text(hz)[digit_char_index(d)];
            if d >= 2 || hz >= digit_step(d) {
                shown == text::digit_char((hz / digit_step(d)) % 10)
            } else {
                shown == ' '
            }
        }),
        frequency_text(hz)[3] == '.',
        frequency_text(hz)[7] == ' ',
        frequency_text(hz).skip(11) == " MHz"@,
{
    let m = hz / 1_000_000;
    let a = text::dec_blank(m, 3);
    let b = text::dec_fixed((hz % 1_000_000) / 1_000, 3);
    let c = text::dec_fixed(hz % 1_000, 3);
    lemma_decades(d);
    lemma_megahertz_digits(m, 0);
    lemma_three_digits((hz % 1_000_000) / 1_000);
    lemma_three_digits(hz % 1_000);
    reveal_strlit(" MHz");
    let s = frequency_text(hz);
    assert(s == a.push('.') + b.push(' ') + c + " MHz"@);
    assert(s.len() == 15);
    assert(s.skip(11) =~= " MHz"@);
    let shown = s[digit_char_index(d)];
    if d < 3 {
        assert(shown == a[d]);
        lemma_megahertz_digits(m, d);
        lemma_megahertz_quotients(hz);
    } else if d < 6 {
        assert(shown == b[d - 3]);
        lemma_kilohertz_digits(hz);
    } else {
        assert(shown == c[d - 6]);
        lemma_hertz_digits(hz);
    }
    if d == 0 {
        assert(m / 100 == hz / digit_step(d));
    } else if d == 1 {
        assert(m / 10 == hz / digit_step(d));
    } else if d == 2 {
        assert(shown == text::digit_char((m / 1) % 10));
        assert(m / 1 == m && m == hz / digit_step(d));
    } else if d == 3 {
        assert(shown == text::digit_char((hz / digit_step(d)) % 10));
    } else if d == 4 {
        assert(shown == text::digit_char((hz / digit_step(d)) % 10));
    } else if d == 5 {
        assert(shown == text::digit_char((hz / digit_step(d)) % 10));
    } else if d == 6 {
        assert(shown == text::digit_char((hz / digit_step(d)) % 10));
    } else if d == 7 {
        assert(shown == text::digit_char((hz / digit_step(d)) % 10));
    } else {
        assert(hz / 1 == hz);
        assert(shown == text::digit_char((hz / digit_step(d)) % 10));
    }
}

proof fn lemma_megahertz_quotients(hz: nat)
    ensures
        hz / 100_000_000 == hz / 1_000_000 / 100,
        hz / 10_000_000 == hz / 1_000_000 / 10,
        hz >= 100_000_000 <==> hz / 1_000_000 >= 100,
        hz >= 10_000_000 <==> hz / 1_000_000 >= 10,
{
}

proof fn lemma_kilohertz_digits(hz: nat)
    ensures
        (hz / 100_000) % 10 == ((hz % 1_000_000) / 1_000 / 100) % 10,
        (hz / 10_000) % 10 == ((hz % 1_000_000) / 1_000 / 10) % 10,
        (hz / 1_000) % 10 == ((hz % 1_000_000) / 1_000) % 10,
{
    let x = hz / 1_000;
    assert((hz % 1_000_000) / 1_000 == x % 1_000);
    assert(hz / 100_000 == x / 100);
    assert(hz / 10_000 == x / 10);
    lemma_hertz_digits(x);
}

proof fn lemma_hertz_digits(hz: nat)
    ensures
        (hz / 100) % 10 == ((hz % 1_000) / 100) % 10,
        (hz / 10) % 10 == ((hz % 1_000) / 10) % 10,
        hz % 10 == (hz % 1_000) % 10,
{
    let q = hz / 1_000;
    let r = hz % 1_000;
    assert(hz == 1_000 * q + r);
    assert(hz / 100 == 10 * q + r / 100);
    assert(hz / 10 == 100 * q + r / 10);
    assert((10 * q + r / 100) % 10 == (r / 100) % 10);
    assert((100 * q + r / 10) % 10 == (r / 10) % 10);
    assert((1_000 * q + r) % 10 == r % 10);
}

/// The digits of a group of three.
proof fn lemma_three_digits(n: nat)
    ensures
        text::dec_fixed(n, 3) == seq![
            text::digit_char((n / 100) % 10),
            text::digit_char((n / 10) % 10),
            text::digit_char(n % 10),
        ],
{
    reveal_with_fuel(text::dec_fixed, 4);
    assert(n / 10 / 10 == n / 100);
    assert(text::dec_fixed(n, 3) =~= seq![
        text::digit_char((n / 10 / 10) % 10),
        text::digit_char((n / 10) % 10),
        text::digit_char(n % 10),
    ]);
}

/// The three characters of the megahertz.
proof fn lemma_megahertz_digits(m: nat, d: int)
    requires
        m < 1_000,
        0 <= d < 3,
    ensures
        text::dec_blank(m, 3).len() == 3,
        ({
            let p: nat = if d == 0 {
                100
            } else if d == 1 {
                10
            } else {
                1
            };
            text::dec_blank(m, 3)[d] == (if d == 2 || m >= p {
                text::digit_char((m / p) % 10)
            } else {
                ' '
            })
        }),
{
    reveal_with_fuel(text::dec, 4);
    assert(text::dec(m).len() == (if m < 10 {
        1int
    } else if m < 100 {
        2
    } else {
        3
    }));
}

/// Hertz of one step of each digit, from the first to the last.
pub open spec fn decades() -> Seq<u64> {
    seq![100_000_000u64, 10_000_000, 1_000_000, 100_000, 10_000, 1_000, 100, 10, 1]
}

proof fn lemma_decades(d: int)
    requires
        0 <= d < 9,
    ensures
        digit_step(d) == decades()[d],
        d == 0 ==> digit_step(d) == 100_000_000,
        d == 1 ==> digit_step(d) == 10_000_000,
        d == 2 ==> digit_step(d) == 1_000_000,
        d == 3 ==> digit_step(d) == 100_000,
        d == 4 ==> digit_step(d) == 10_000,
        d == 5 ==> digit_step(d) == 1_000,
        d == 6 ==> digit_step(d) == 100,
        d == 7 ==> digit_step(d) == 10,
        d == 8 ==> digit_step(d) == 1,
{
    reveal_with_fuel(decimal::pow10, 9);
}

/// Scrolling up over a digit raises the frequency by one of its decade, scrolling down lowers it by
/// as much, and the digit becomes the active one; beside the digits the active one is tuned, the
/// 10 kHz column when none is.
pub proof fn law_scroll_tunes_the_digit(
    w: FrequencyWidget,
    i: DisplayInput,
    n: FrequencyWidget,
    r: DisplayFrame,
    d: usize,
)
    requires
        after_display(w, i, n, r),
        !i.double_clicked,
        !i.clicked,
        !i.arrow_up,
        !i.arrow_down,
        i.in_widget,
        d < 9,
        i.hovered_digit == Some(d) || (i.hovered_digit is None && w.active_digit == Some(d)) || (
        i.hovered_digit is None && w.active_digit is None && d == 4),
        decades()[d as int] < w.frequency_hz,
        w.frequency_hz + decades()[d as int] <= i64::MAX,
    ensures
        i.scroll == Scroll::Up ==> n.frequency_hz == w.frequency_hz + decades()[d as int],
        i.scroll == Scroll::Down ==> n.frequency_hz == w.frequency_hz - decades()[d as int],
        i.scroll == Scroll::Idle ==> n.frequency_hz == w.frequency_hz && r.new_freq is None,
        i.scroll != Scroll::Idle ==> r.new_freq == Some(n.frequency_hz),
        i.scroll != Scroll::Idle && i.hovered_digit is Some ==> n.active_digit == Some(d),
        !(i.scroll != Scroll::Idle && i.hovered_digit is Some) ==> n.active_digit
            == w.active_digit,
{
    lemma_decades(d as int);
}

/// A scroll beside the widget changes nothing.
pub proof fn law_scroll_beside_the_widget(
    w: FrequencyWidget,
    i: DisplayInput,
    n: FrequencyWidget,
    r: DisplayFrame,
)
    requires
        after_display(w, i, n, r),
        !i.double_clicked,
        !i.in_widget,
        !i.arrow_up,
        !i.arrow_down,
    ensures
        n.frequency_hz == w.frequency_hz,
        r.new_freq is None,
{
}

/// With keyboard focus the Up key raises the frequency by one of the active digit's decade and the
/// Down key lowers it by as much, whatever is scrolled; the 10 kHz column is tuned when no digit is
/// active. Without focus the keys do nothing here.
pub proof fn law_arrow_keys_tune_the_active_digit(
    w: FrequencyWidget,
    i: DisplayInput,
    n: FrequencyWidget,
    r: DisplayFrame,
    d: usize,
)
    requires
        after_display(w, i, n, r),
        !i.double_clicked,
        !i.clicked,
        !i.any_click,
        d < 9,
        w.active_digit == Some(d) || (w.active_digit is None && d == 4),
        decades()[d as int] < w.frequency_hz,
        w.frequency_hz + decades()[d as int] <= i64::MAX,
    ensures
        n.active_digit == w.active_digit || (!w.has_keyboard_focus || (!i.arrow_up
            && !i.arrow_down)),
        w.has_keyboard_focus && i.arrow_up ==> n.frequency_hz == w.frequency_hz
            + decades()[d as int],
        w.has_keyboard_focus && !i.arrow_up && i.arrow_down ==> n.frequency_hz == w.frequency_hz
            - decades()[d as int],
        w.has_keyboard_focus && (i.arrow_up || i.arrow_down) ==> r.new_freq == Some(
            n.frequency_hz,
        ) && r.repaint,
        !w.has_keyboard_focus && i.scroll == Scroll::Idle ==> n.frequency_hz == w.frequency_hz,
        n.has_keyboard_focus == w.has_keyboard_focus,
{
    lemma_decades(d as int);
}

/// A click on the widget gives it the keyboard and pins the digit under the pointer, or else leaves
/// the pinned one, at first the 10 kHz column; a click elsewhere takes the keyboard away.
pub proof fn law_click_pins_a_digit(
    w: FrequencyWidget,
    i: DisplayInput,
    n: FrequencyWidget,
    r: DisplayFrame,
)
    requires
        after_display(w, i, n, r),
        !i.double_clicked,
        i.scroll == Scroll::Idle,
    ensures
        i.clicked ==> n.has_keyboard_focus,
        i.clicked && i.hovered_digit is Some ==> n.active_digit == i.hovered_digit,
        i.clicked && i.hovered_digit is None && w.active_digit is Some ==> n.active_digit
            == w.active_digit,
        i.clicked && i.hovered_digit is None && w.active_digit is None ==> n.active_digit == Some(
            4usize,
        ),
        i.any_click && !i.clicked ==> !n.has_keyboard_focus && n.active_digit == w.active_digit
            && n.frequency_hz == w.frequency_hz,
        !i.any_click && !i.clicked ==> n.has_keyboard_focus == w.has_keyboard_focus,
{
}

/// A step that would end below 1 Hz ends at 1 Hz and tints the readout for 45 frames, this one
/// among them; a frame without such a step counts one of them off.
pub proof fn law_lowest_frequency_tints(
    w: FrequencyWidget,
    i: DisplayInput,
    n: FrequencyWidget,
    r: DisplayFrame,
    d: usize,
)
    requires
        after_display(w, i, n, r),
        !i.double_clicked,
        !i.clicked,
        !i.arrow_up,
        !i.arrow_down,
        w.frequency_hz <= i64::MAX - 100_000_000,
        d < 9,
        i.hovered_digit == Some(d),
    ensures
        i.in_widget && i.scroll == Scroll::Down && w.frequency_hz <= decades()[d as int] ==> {
            &&& n.frequency_hz == 1
            &&& n.clamped_ticks == 44
            &&& r.repaint
            &&& r.new_freq == (if w.frequency_hz == 1 {
                None
            } else {
                Some(1u64)
            })
        },
        i.scroll == Scroll::Idle || i.scroll == Scroll::Up && w.frequency_hz >= 1 ==> {
            &&& n.clamped_ticks == (if w.clamped_ticks > 0 {
                w.clamped_ticks - 1
            } else {
                0
            })
            &&& r.repaint == (w.clamped_ticks > 0)
        },
{
    lemma_decades(d as int);
    lemma_decades(0);
}

/// A double click opens the entry and nothing else; in it Escape closes without a change, and
/// Enter, Tab or a lost focus close it too.
pub proof fn law_entry_opens_and_closes(
    w: FrequencyWidget,
    i: DisplayInput,
    n: FrequencyWidget,
    r: DisplayFrame,
    e: EditInput,
    m: FrequencyWidget,
    new_freq: Option<u64>,
)
    requires
        after_display(w, i, n, r),
        i.double_clicked,
        after_edit(n, e, m, new_freq),
    ensures
        n.editing,
        !n.has_keyboard_focus,
        n.frequency_hz == w.frequency_hz,
        r.new_freq is None,
        e.escape ==> !m.editing && m.frequency_hz == w.frequency_hz && new_freq is None,
        e.enter || e.lost_focus ==> !m.editing,
        !e.escape && !e.enter && !e.lost_focus ==> m.editing && m.frequency_hz == w.frequency_hz
            && new_freq is None,
        new_freq is Some ==> new_freq == Some(m.frequency_hz) && m.frequency_hz != w.frequency_hz,
        new_freq is None ==> m.frequency_hz == w.frequency_hz,
{
}

// ── Laws of the entry ───────────────────────────────────────────────────────

/// A whole number of units is scaled without an error while the result stays below `2^52`.
proof fn lemma_whole_scaled(v: nat, factor: nat)
    requires
        0 < v,
        0 < factor,
        v * factor < 0x10_0000_0000_0000,
    ensures
        number::scaled_quotient(v, 1, factor) == v * factor,
{
    lemma2_to64();
    lemma2_to64_rest();
    assert(v <= v * factor) by (nonlinear_arith)
        requires
            factor >= 1,
    ;
    let s = decimal::scale(v, 1, 53);
    let p = pow2(s);
    lemma_pow2_pos(s);
    decimal::lemma_round_exact(v * p, 1);
    let x = decimal::nearest_binary(v, 1, 53);
    assert(x == (v * p, p));
    let big = x.0 * factor;
    let y = decimal::to_double(big);
    number::lemma_double_tight(big);
    let w = v * factor;
    assert(big == w * p) by (nonlinear_arith)
        requires
            big == (v * p) * factor,
            w == v * factor,
    ;
    assert(w * p < 0x10_0000_0000_0000 * p) by (nonlinear_arith)
        requires
            w < 0x10_0000_0000_0000,
            p > 0,
    ;
    assert(2 * y + p >= 2 * (w * p));
    assert(2 * y + p < 2 * (w * p) + 2 * p);
    assert((2 * y + p) / (2 * p) == w) by {
        let r = (2 * y + p) - w * (2 * p);
        assert(w * (2 * p) == 2 * (w * p)) by (nonlinear_arith);
        vstd::arithmetic::div_mod::lemma_fundamental_div_mod_converse(
            (2 * y + p) as int,
            (2 * p) as int,
            w as int,
            r,
        );
    }
}

/// Decimal digits followed by nothing else are a whole number of units.
proof fn lemma_whole_text_scaled(v: nat, factor: nat)
    requires
        0 < v,
        0 < factor,
        v * factor < 0x10_0000_0000_0000,
    ensures
        scaled_text(text::dec(v), factor) == Some((v * factor) as u64),
{
    let s = text::dec(v);
    text::lemma_dec_round_trip(v);
    assert forall|i: int| 0 <= i < s.len() implies s[i] != 'e' && s[i] != '.' by {
        assert(text::is_digit(s[i]));
    }
    assert(text::ascii_lower(s) =~= s) by {
        assert forall|i: int| 0 <= i < s.len() implies text::ascii_lower(s)[i] == s[i] by {
            assert(text::is_digit(s[i]));
        }
    }
    assert(text::is_digit(s[0]));
    number::lemma_find_missing(s, 'e');
    number::lemma_find_missing(s, '.');
    assert(number::mantissa_part(s) =~= s);
    assert(number::whole_digits(s) =~= s);
    assert(number::fraction_digits(s) =~= Seq::<char>::empty());
    assert(number::unsigned_part(s) == s);
    assert(s + Seq::<char>::empty() =~= s);
    assert(decimal::pow10(0) == 1);
    assert(v * 1 == v);
    assert(number::literal_quotient(v, 0) == (v, 1nat));
    lemma_whole_scaled(v, factor);
    assert(0 < v * factor) by (nonlinear_arith)
        requires
            0 < v,
            0 < factor,
    ;
}

/// A whole number with a unit is that many gigahertz, megahertz, kilohertz or hertz, with or without
/// a blank before the unit, in capitals or not, as long as the result stays below `2^52` hertz.
pub proof fn law_unit_scales(v: nat)
    requires
        0 < v,
    ensures
        v * 1_000_000_000 < 0x10_0000_0000_0000 ==> {
            &&& frequency_value(text::ascii_lower(text::dec(v) + " GHz"@)) == Some(
                (v * 1_000_000_000) as u64,
            )
            &&& frequency_value(text::dec(v) + "ghz"@) == Some((v * 1_000_000_000) as u64)
        },
        v * 1_000_000 < 0x10_0000_0000_0000 ==> {
            &&& frequency_value(text::ascii_lower(text::dec(v) + " MHz"@)) == Some(
                (v * 1_000_000) as u64,
            )
            &&& frequency_value(text::dec(v) + "mhz"@) == Some((v * 1_000_000) as u64)
        },
        v * 1_000 < 0x10_0000_0000_0000 ==> {
            &&& frequency_value(text::ascii_lower(text::dec(v) + " kHz"@)) == Some(
                (v * 1_000) as u64,
            )
            &&& frequency_value(text::dec(v) + "khz"@) == Some((v * 1_000) as u64)
        },
        v < 0x10_0000_0000_0000 ==> {
            &&& frequency_value(text::ascii_lower(text::dec(v) + " Hz"@)) == Some(v as u64)
            &&& frequency_value(text::dec(v) + "hz"@) == Some(v as u64)
        },
{
    if v * 1_000_000_000 < 0x10_0000_0000_0000 {
        lemma_gigahertz(v);
    }
    if v * 1_000_000 < 0x10_0000_0000_0000 {
        lemma_megahertz(v);
    }
    if v * 1_000 < 0x10_0000_0000_0000 {
        lemma_kilohertz(v);
    }
    if v < 0x10_0000_0000_0000 {
        lemma_hertz(v);
    }
}

proof fn lemma_gigahertz(v: nat)
    requires
        0 < v,
        v * 1_000_000_000 < 0x10_0000_0000_0000,
    ensures
        frequency_value(text::ascii_lower(text::dec(v) + " GHz"@)) == Some((v * 1_000_000_000) as u64),
        frequency_value(text::dec(v) + "ghz"@) == Some((v * 1_000_000_000) as u64),
{
    reveal_strlit("ghz");
    reveal_strlit("mhz");
    reveal_strlit("khz");
    reveal_strlit("hz");
    reveal_strlit(" GHz");
    let s = text::dec(v);
    lemma_with_unit(v, " GHz"@, "ghz"@);
    lemma_whole_text_scaled(v, 1_000_000_000);
}

proof fn lemma_megahertz(v: nat)
    requires
        0 < v,
        v * 1_000_000 < 0x10_0000_0000_0000,
    ensures
        frequency_value(text::ascii_lower(text::dec(v) + " MHz"@)) == Some((v * 1_000_000) as u64),
        frequency_value(text::dec(v) + "mhz"@) == Some((v * 1_000_000) as u64),
{
    reveal_strlit("ghz");
    reveal_strlit("mhz");
    reveal_strlit("khz");
    reveal_strlit("hz");
    reveal_strlit(" MHz");
    let s = text::dec(v);
    lemma_with_unit(v, " MHz"@, "mhz"@);
    lemma_whole_text_scaled(v, 1_000_000);
    lemma_other_unit(s + "mhz"@, 'm');
    lemma_other_unit(s.push(' ') + "mhz"@, 'm');
}

proof fn lemma_kilohertz(v: nat)
    requires
        0 < v,
        v * 1_000 < 0x10_0000_0000_0000,
    ensures
        frequency_value(text::ascii_lower(text::dec(v) + " kHz"@)) == Some((v * 1_000) as u64),
        frequency_value(text::dec(v) + "khz"@) == Some((v * 1_000) as u64),
{
    reveal_strlit("ghz");
    reveal_strlit("mhz");
    reveal_strlit("khz");
    reveal_strlit("hz");
    reveal_strlit(" kHz");
    let s = text::dec(v);
    lemma_with_unit(v, " kHz"@, "khz"@);
    lemma_whole_text_scaled(v, 1_000);
    lemma_other_unit(s + "khz"@, 'k');
    lemma_other_unit(s.push(' ') + "khz"@, 'k');
}

proof fn lemma_hertz(v: nat)
    requires
        0 < v,
        v * 1 < 0x10_0000_0000_0000,
    ensures
        frequency_value(text::ascii_lower(text::dec(v) + " Hz"@)) == Some((v * 1) as u64),
        frequency_value(text::dec(v) + "hz"@) == Some((v * 1) as u64),
{
    reveal_strlit("ghz");
    reveal_strlit("mhz");
    reveal_strlit("khz");
    reveal_strlit("hz");
    reveal_strlit(" Hz");
    let s = text::dec(v);
    lemma_with_unit(v, " Hz"@, "hz"@);
    lemma_whole_text_scaled(v, 1);
    text::lemma_dec_round_trip(v);
    assert(text::is_digit(s.last()));
    lemma_other_unit(s + "hz"@, s.last());
    lemma_other_unit(s.push(' ') + "hz"@, ' ');
}

/// Which unit a text ends in shows in its third character from the end.
proof fn lemma_other_unit(s: Seq<char>, c: char)
    requires
        s.len() >= 3,
        s[s.len() - 3] == c,
    ensures
        c != 'g' ==> !text::ends_with(s, "ghz"@),
        c != 'm' ==> !text::ends_with(s, "mhz"@),
        c != 'k' ==> !text::ends_with(s, "khz"@),
{
    reveal_strlit("ghz");
    reveal_strlit("mhz");
    reveal_strlit("khz");
    assert(s.skip(s.len() - 3)[0] == c);
}

/// A number and a unit: lower case, and what is left of the number without the unit.
proof fn lemma_with_unit(v: nat, unit: Seq<char>, lower: Seq<char>)
    requires
        unit.len() == lower.len() + 1,
        unit[0] == ' ',
        forall|i: int|
            0 <= i < lower.len() ==> #[trigger] lower[i] == text::ascii_lower(unit)[i + 1],
    ensures
        ({
            let s = text::dec(v);
            let a = s + lower;
            let b = text::ascii_lower(s + unit);
            &&& b == s.push(' ') + lower
            &&& text::ends_with(a, lower)
            &&& text::ends_with(b, lower)
            &&& text::trimmed(a.take(a.len() - lower.len())) == s
            &&& text::trimmed(b.take(b.len() - lower.len())) == s
        }),
{
    let s = text::dec(v);
    text::lemma_dec_round_trip(v);
    let a = s + lower;
    let b = text::ascii_lower(s + unit);
    let c = s.push(' ') + lower;
    assert forall|i: int| 0 <= i < b.len() implies b[i] == c[i] by {
        if i < s.len() {
            assert(text::is_digit(s[i]));
        } else if i > s.len() {
            let k = i - s.len() - 1;
            assert(lower[k] == text::ascii_lower(unit)[k + 1]);
            assert((s + unit)[i] == unit[k + 1]);
        }
    }
    assert(b =~= c);
    assert(a.skip(a.len() - lower.len()) =~= lower);
    assert(b.skip(b.len() - lower.len()) =~= lower);
    assert(a.take(a.len() - lower.len()) =~= s);
    assert(b.take(b.len() - lower.len()) =~= s.push(' '));
    assert(text::is_digit(s[0]));
    assert(text::is_digit(s.last()));
    assert(text::trim_start(s) == s && text::trim_end(s) == s);
    let t = s.push(' ');
    assert(t[0] == s[0]);
    assert(text::trim_start(t) == t);
    assert(t.drop_last() =~= s);
    assert(text::trim_end(t) == text::trim_end(s));
}

/// The label of a step size names it: typed into the entry it gives that many hertz.
pub proof fn law_step_label_names_the_step(k: nat)
    requires
        k <= 9,
    ensures
        ({
            let hz = decimal::pow10(k);
            frequency_value(text::ascii_lower(step_text(hz as u64))) == Some(hz as u64)
        }),
{
    let v: nat = if k % 3 == 0 {
        1
    } else if k % 3 == 1 {
        10
    } else {
        100
    };
    let hz = decimal::pow10(k) as u64;
    let label = step_text(hz);
    if k < 3 {
        assert(hz == v && label == text::dec(v) + " Hz"@) by {
            lemma_ten_powers();
            lemma_labels();
        }
        lemma_hertz(v);
    } else if k < 6 {
        assert(hz == v * 1_000 && label == text::dec(v) + " kHz"@) by {
            lemma_ten_powers();
            lemma_labels();
        }
        lemma_kilohertz(v);
    } else if k < 9 {
        assert(hz == v * 1_000_000 && label == text::dec(v) + " MHz"@) by {
            lemma_ten_powers();
            lemma_labels();
        }
        lemma_megahertz(v);
    } else {
        assert(hz == v * 1_000_000_000 && label == text::dec(v) + " GHz"@) by {
            lemma_ten_powers();
            lemma_labels();
        }
        lemma_gigahertz(v);
    }
    assert(decimal::pow10(k) <= 1_000_000_000) by {
        lemma_ten_powers();
    }
}

/// The labels are numbers with units.
proof fn lemma_labels()
    ensures
        "1 Hz"@ == text::dec(1) + " Hz"@,
        "10 Hz"@ == text::dec(10) + " Hz"@,
        "100 Hz"@ == text::dec(100) + " Hz"@,
        "1 kHz"@ == text::dec(1) + " kHz"@,
        "10 kHz"@ == text::dec(10) + " kHz"@,
        "100 kHz"@ == text::dec(100) + " kHz"@,
        "1 MHz"@ == text::dec(1) + " MHz"@,
        "10 MHz"@ == text::dec(10) + " MHz"@,
        "100 MHz"@ == text::dec(100) + " MHz"@,
        "1 GHz"@ == text::dec(1) + " GHz"@,
{
    lemma_first_decades();
    assert("1 Hz"@ == text::dec(1) + " Hz"@) by {
        reveal_strlit("1 Hz");
        reveal_strlit(" Hz");
        assert("1 Hz"@ =~= text::dec(1) + " Hz"@);
    }
    assert("10 Hz"@ == text::dec(10) + " Hz"@) by {
        reveal_strlit("10 Hz");
        reveal_strlit(" Hz");
        assert("10 Hz"@ =~= text::dec(10) + " Hz"@);
    }
    assert("100 Hz"@ == text::dec(100) + " Hz"@) by {
        reveal_strlit("100 Hz");
        reveal_strlit(" Hz");
        assert("100 Hz"@ =~= text::dec(100) + " Hz"@);
    }
    assert("1 kHz"@ == text::dec(1) + " kHz"@) by {
        reveal_strlit("1 kHz");
        reveal_strlit(" kHz");
        assert("1 kHz"@ =~= text::dec(1) + " kHz"@);
    }
    assert("10 kHz"@ == text::dec(10) + " kHz"@) by {
        reveal_strlit("10 kHz");
        reveal_strlit(" kHz");
        assert("10 kHz"@ =~= text::dec(10) + " kHz"@);
    }
    assert("100 kHz"@ == text::dec(100) + " kHz"@) by {
        reveal_strlit("100 kHz");
        reveal_strlit(" kHz");
        assert("100 kHz"@ =~= text::dec(100) + " kHz"@);
    }
    assert("1 MHz"@ == text::dec(1) + " MHz"@) by {
        reveal_strlit("1 MHz");
        reveal_strlit(" MHz");
        assert("1 MHz"@ =~= text::dec(1) + " MHz"@);
    }
    assert("10 MHz"@ == text::dec(10) + " MHz"@) by {
        reveal_strlit("10 MHz");
        reveal_strlit(" MHz");
        assert("10 MHz"@ =~= text::dec(10) + " MHz"@);
    }
    assert("100 MHz"@ == text::dec(100) + " MHz"@) by {
        reveal_strlit("100 MHz");
        reveal_strlit(" MHz");
        assert("100 MHz"@ =~= text::dec(100) + " MHz"@);
    }
    assert("1 GHz"@ == text::dec(1) + " GHz"@) by {
        reveal_strlit("1 GHz");
        reveal_strlit(" GHz");
        assert("1 GHz"@ =~= text::dec(1) + " GHz"@);
    }
}

proof fn lemma_ten_powers()
    ensures
        decimal::pow10(0) == 1,
        decimal::pow10(1) == 10,
        decimal::pow10(2) == 100,
        decimal::pow10(3) == 1_000,
        decimal::pow10(4) == 10_000,
        decimal::pow10(5) == 100_000,
        decimal::pow10(6) == 1_000_000,
        decimal::pow10(7) == 10_000_000,
        decimal::pow10(8) == 100_000_000,
        decimal::pow10(9) == 1_000_000_000,
{
    reveal_with_fuel(decimal::pow10, 10);
}

proof fn lemma_first_decades()
    ensures
        text::dec(1) == seq!['1'],
        text::dec(10) == seq!['1', '0'],
        text::dec(100) == seq!['1', '0', '0'],
{
    reveal_with_fuel(text::dec, 4);
    assert(text::dec(1) =~= seq!['1']);
    assert(text::dec(10) =~= seq!['1', '0']);
    assert(text::dec(100) =~= seq!['1', '0', '0']);
}

// ── Laws of what is shown ───────────────────────────────────────────────────

/// The digit under the pointer is highlighted before the active one, every other digit is not; the
/// readout is tinted exactly while tint frames are left.
pub proof fn law_highlights(w: FrequencyWidget, digit: usize, other: usize)
    ensures
        highlight_spec(&w, digit, Some(digit)) is Some,
        w.active_digit == Some(digit) && other != digit ==> highlight_spec(&w, digit, Some(other))
            is Some && highlight_spec(&w, digit, Some(other)) != highlight_spec(
            &w,
            digit,
            Some(digit),
        ),
        w.active_digit != Some(digit) && other != digit ==> highlight_spec(&w, digit, Some(other))
            is None,
        w.active_digit != Some(digit) ==> highlight_spec(&w, digit, None) is None,
        w.clamped_ticks > 0 ==> background_spec(&w) == (Color { r: 0x3C, g: 0x14, b: 0x14, a: 255 }),
        w.clamped_ticks == 0 ==> background_spec(&w) == (Color { r: 0x14, g: 0x1C, b: 0x26, a: 255 }),
        tooltip_digit(w, Some(digit)) == Some(digit),
        tooltip_digit(w, None) == w.active_digit,
{
}

/// Any frequency up to 100 MHz below the largest signed number can take any frame.
pub proof fn law_ordinary_frames_are_taken(w: FrequencyWidget, i: DisplayInput)
    requires
        w.wf(),
        i.hovered_digit is Some ==> i.hovered_digit->0 < 9,
        w.frequency_hz <= i64::MAX - 100_000_000,
    ensures
        w.can_take(i),
{
    match tuned(w, i) {
        Some((digit, up)) => {
            lemma_decades(digit as int);
        },
        None => {},
    }
}

/// From 1 GHz on the readout shows gigahertz with three decimals, cut after the last: read as one
/// number its digits are the full megahertz.
pub proof fn law_readout_in_gigahertz(hz: nat)
    requires
        hz >= 1_000_000_000,
    ensures
        ({
            let whole = text::dec(hz / 1_000_000_000);
            let s = frequency_text(hz);
            let n = whole.len() as int;
            &&& s.len() == n + 8
            &&& s[n] == '.'
            &&& s.skip(n + 4) == " GHz"@
            &&& text::dec_value(s.take(n) + s.subrange(n + 1, n + 4)) == hz / 1_000_000
        }),
{
    let whole = text::dec(hz / 1_000_000_000);
    let part = (hz % 1_000_000_000) / 1_000_000;
    let digits = text::dec_fixed(part, 3);
    let s = frequency_text(hz);
    let n = whole.len() as int;
    reveal_strlit(" GHz");
    text::lemma_dec_round_trip(hz / 1_000_000_000);
    text::law_fixed_digits(part, 3, whole);
    lemma_ten_powers();
    assert(s == whole.push('.') + digits + " GHz"@);
    assert(s.skip(n + 4) =~= " GHz"@);
    assert(s.take(n) =~= whole);
    assert(s.subrange(n + 1, n + 4) =~= digits);
    assert(part < 1_000);
    assert(hz / 1_000_000 == (hz / 1_000_000_000) * 1_000 + part);
}

} // verus!
