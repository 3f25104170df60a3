//! The status bar, and frequency labels for the panels.

use vstd::arithmetic::power2::*;
use vstd::prelude::*;
use vstd::string::*;

use crate::decimal;
use crate::level;
use crate::level::Level;
use crate::text;
use crate::theme;
use crate::theme::Color;

verus! {

// ── Labels ──────────────────────────────────────────────────────────────────

/// A frequency with its unit, as the panels show it.
pub open spec fn frequency_text(hz: nat) -> Seq<char> {
    if hz >= 1_000_000_000 {
        decimal::quotient_text(hz, 1_000_000_000, 3) + " GHz"@
    } else if hz >= 1_000_000 {
        decimal::quotient_text(hz, 1_000_000, 3) + " MHz"@
    } else if hz >= 1_000 {
        decimal::quotient_text(hz, 1_000, 1) + " kHz"@
    } else {
        text::dec(hz) + " Hz"@
    }
}

pub fn format_frequency(hz: u64) -> (r: String)
    ensures
        r@ == frequency_text(hz as nat),
{
    let mut s: String = String::new();
    if hz >= 1_000_000_000 {
        decimal::push_quotient(&mut s, hz, 1_000_000_000, 3);
        s.append(" GHz");
    } else if hz >= 1_000_000 {
        decimal::push_quotient(&mut s, hz, 1_000_000, 3);
        s.append(" MHz");
    } else if hz >= 1_000 {
        decimal::push_quotient(&mut s, hz, 1_000, 1);
        s.append(" kHz");
    } else {
        text::push_dec(&mut s, hz);
        s.append(" Hz");
    }
    assert(s@ =~= frequency_text(hz as nat));
    s
}

/// A sample rate with its unit.
pub open spec fn rate_text(rate: nat) -> Seq<char> {
    if rate >= 1_000_000 {
        decimal::quotient_text(rate, 1_000_000, 1) + " Msps"@
    } else if rate >= 1_000 {
        decimal::quotient_text(rate, 1_000, 0) + " ksps"@
    } else {
        text::dec(rate) + " sps"@
    }
}

pub fn rate_label(rate: u32) -> (r: String)
    ensures
        r@ == rate_text(rate as nat),
{
    let mut s: String = String::new();
    if rate >= 1_000_000 {
        decimal::push_quotient(&mut s, rate as u64, 1_000_000, 1);
        s.append(" Msps");
    } else if rate >= 1_000 {
        decimal::push_quotient(&mut s, rate as u64, 1_000, 0);
        s.append(" ksps");
    } else {
        text::push_dec(&mut s, rate as u64);
        s.append(" sps");
    }
    assert(s@ =~= rate_text(rate as nat));
    s
}

// ── Left side ───────────────────────────────────────────────────────────────

/// The left side of the status bar.
pub open spec fn summary_text(
    device: Seq<char>,
    rate: nat,
    center_freq_hz: nat,
    is_stereo: bool,
) -> Seq<char> {
    "◈  "@ + device + "  ·  "@ + rate_text(rate) + "  ·  "@ + frequency_text(center_freq_hz) + (
    if is_stereo {
        "  ST"@
    } else {
        Seq::<char>::empty()
    })
}

pub fn summary(device: &str, rate: u32, center_freq_hz: u64, is_stereo: bool) -> (r: String)
    ensures
        r@ == summary_text(device@, rate as nat, center_freq_hz as nat, is_stereo),
{
    let mut s: String = text::owned("◈  ");
    s.append(device);
    s.append("  ·  ");
    let rate_part: String = rate_label(rate);
    s.append(rate_part.as_str());
    s.append("  ·  ");
    let freq: String = format_frequency(center_freq_hz);
    s.append(freq.as_str());
    if is_stereo {
        s.append("  ST");
    }
    assert(s@ =~= summary_text(device@, rate as nat, center_freq_hz as nat, is_stereo));
    s
}

// ── Right side ──────────────────────────────────────────────────────────────

/// 0.8
pub const BUFFER_HIGH_BITS: u32 = 0x3F4C_CCCD;

/// The colour of the audio buffer indicator.
pub open spec fn buffer_color_spec(fill: Level) -> Color {
    if level::of(BUFFER_HIGH_BITS).below(fill) {
        theme::rgb(theme::STATUS_WARN)
    } else {
        theme::rgb(theme::STATUS_OK)
    }
}

/// The colour of the audio buffer indicator: a warning above four fifths.
pub fn buffer_color(fill: Level) -> (c: Color)
    ensures
        c == buffer_color_spec(fill),
{
    if level::of(BUFFER_HIGH_BITS).lt(fill) {
        theme::rgb(theme::STATUS_WARN)
    } else {
        theme::rgb(theme::STATUS_OK)
    }
}

/// The name of a page of the MIDI controller.
pub open spec fn midi_page_text(page: int) -> Seq<char> {
    if page == 0 {
        "Tune"@
    } else if page == 1 {
        "Monitor"@
    } else if page == 2 {
        "Rec"@
    } else {
        "?"@
    }
}

pub fn midi_page_name(page: usize) -> (r: &'static str)
    ensures
        r@ == midi_page_text(page as int),
{
    match page {
        0 => "Tune",
        1 => "Monitor",
        2 => "Rec",
        _ => "?",
    }
}

/// A coloured text of the status bar.
pub struct Badge {
    pub text: String,
    pub color: Color,
}

/// The MIDI controller and its page.
pub open spec fn midi_text(device: Option<String>, page: nat) -> Seq<char> {
    match device {
        Some(name) => "MIDI: "@ + name@ + "  P"@ + text::dec(page) + ":"@ + midi_page_text(
            page as int,
        ),
        None => "MIDI: —"@,
    }
}

pub fn midi_badge(device: &Option<String>, page: usize) -> (b: Badge)
    ensures
        b.text@ == midi_text(*device, page as nat),
        b.color == (if device is Some {
            theme::page_color(page as int)
        } else {
            theme::rgb(theme::TEXT_DISABLED)
        }),
{
    match device {
        Some(name) => {
            let mut s: String = text::owned("MIDI: ");
            s.append(name.as_str());
            s.append("  P");
            text::push_dec(&mut s, page as u64);
            s.append(":");
            s.append(midi_page_name(page));
            assert(s@ =~= midi_text(*device, page as nat));
            Badge { text: s, color: theme::midi_page_color(page) }
        },
        None => Badge { text: text::owned("MIDI: —"), color: theme::rgb(theme::TEXT_DISABLED) },
    }
}

/// The indicator of the running receiver.
pub fn running_badge(is_running: bool) -> (b: Badge)
    ensures
        b.text@ == (if is_running {
            "●"@
        } else {
            "○"@
        }),
        b.color == (if is_running {
            theme::rgb(theme::STATUS_OK)
        } else {
            theme::rgb(theme::TEXT_DISABLED)
        }),
{
    if is_running {
        Badge { text: text::owned("●"), color: theme::rgb(theme::STATUS_OK) }
    } else {
        Badge { text: text::owned("○"), color: theme::rgb(theme::TEXT_DISABLED) }
    }
}

// ── Laws ────────────────────────────────────────────────────────────────────

/// Frequencies and sample rates carry the largest unit that leaves at least one before the point, and
/// whole units are shown exactly.
pub proof fn law_labels_have_their_unit(n: nat)
    requires
        0 < n < 1_000,
    ensures
        frequency_text(n) == text::dec(n) + " Hz"@,
        frequency_text(n * 1_000) == text::dec(n) + ".0 kHz"@,
        frequency_text(n * 1_000_000) == text::dec(n) + ".000 MHz"@,
        frequency_text(n * 1_000_000_000) == text::dec(n) + ".000 GHz"@,
        rate_text(n) == text::dec(n) + " sps"@,
        rate_text(n * 1_000) == text::dec(n) + " ksps"@,
        rate_text(n * 1_000_000) == text::dec(n) + ".0 Msps"@,
{
    decimal::law_whole_quotient(n, 1_000, 1);
    decimal::law_whole_quotient(n, 1_000_000, 3);
    decimal::law_whole_quotient(n, 1_000_000_000, 3);
    decimal::law_whole_quotient(n, 1_000, 0);
    decimal::law_whole_quotient(n, 1_000_000, 1);
    reveal_with_fuel(text::dec_fixed, 4);
    assert(text::dec_fixed(0, 1) =~= seq!['0']);
    assert(text::dec_fixed(0, 3) =~= seq!['0', '0', '0']);
    reveal_strlit(" kHz");
    reveal_strlit(" MHz");
    reveal_strlit(" GHz");
    reveal_strlit(" Msps");
    reveal_strlit(".0 kHz");
    reveal_strlit(".000 MHz");
    reveal_strlit(".000 GHz");
    reveal_strlit(".0 Msps");
    assert(frequency_text(n * 1_000) =~= text::dec(n) + ".0 kHz"@);
    assert(frequency_text(n * 1_000_000) =~= text::dec(n) + ".000 MHz"@);
    assert(frequency_text(n * 1_000_000_000) =~= text::dec(n) + ".000 GHz"@);
    assert(rate_text(n * 1_000_000) =~= text::dec(n) + ".0 Msps"@);
}

/// The audio buffer warns above four fifths.
pub proof fn law_buffer_warning(fill: Level)
    requires
        !fill.is_nan(),
    ensures
        level::number_of(fill.bits) > level::number_of(0x3F4C_CCCD) ==> buffer_color_spec(fill)
            == theme::rgb(0xFFBE28),
        level::number_of(fill.bits) <= level::number_of(0x3F4C_CCCD) ==> buffer_color_spec(fill)
            == theme::rgb(0x32DC50),
        level::is_nearest(0x3F4C_CCCD, 4, 5),
{
    lemma2_to64();
    level::law_order_is_numeric(level::of(0x3F4C_CCCD), fill);
}

/// The controller is shown with its name, the number of its page and the name of that page; without
/// one there is a dash.
pub proof fn law_controller_shown(name: String, page: nat)
    ensures
        text::starts_with(midi_text(Some(name), page), "MIDI: "@ + name@),
        text::ends_with(midi_text(Some(name), page), midi_page_text(page as int)),
        text::contains_text(midi_text(Some(name), page), "  P"@ + text::dec(page) + ":"@),
        midi_text(None, page) == "MIDI: —"@,
        midi_page_text(0) == "Tune"@,
        midi_page_text(1) == "Monitor"@,
        midi_page_text(2) == "Rec"@,
        page > 2 ==> midi_page_text(page as int) == "?"@,
{
    let s = midi_text(Some(name), page);
    let head = "MIDI: "@ + name@;
    let number = "  P"@ + text::dec(page) + ":"@;
    let tail = midi_page_text(page as int);
    assert(s.take(head.len() as int) =~= head);
    assert(s.skip(s.len() - tail.len()) =~= tail);
    assert(s.subrange(head.len() as int, (head.len() + number.len()) as int) =~= number);
}

/// The summary ends with a mark exactly when the signal is stereo, and shows device, rate and
/// frequency in that order.
pub proof fn law_summary(device: Seq<char>, rate: nat, hz: nat)
    ensures
        summary_text(device, rate, hz, false) == "◈  "@ + device + "  ·  "@ + rate_text(rate)
            + "  ·  "@ + frequency_text(hz),
        summary_text(device, rate, hz, true) == summary_text(device, rate, hz, false) + "  ST"@,
{
    assert(summary_text(device, rate, hz, false) =~= "◈  "@ + device + "  ·  "@ + rate_text(rate)
        + "  ·  "@ + frequency_text(hz));
    assert(summary_text(device, rate, hz, true) =~= summary_text(device, rate, hz, false)
        + "  ST"@);
}

} // verus!
