//! The display controls under the spectrum.

use vstd::arithmetic::power2::*;
use vstd::prelude::*;
use vstd::string::*;

use crate::app;
use crate::app::DisplayRange;
use crate::app::SdrApp;
use crate::center;
use crate::config::AppConfig;
use crate::config::UiConfig;
use crate::decimal;
use crate::level;
use crate::level::Level;
use crate::receiver;
use crate::receiver::Command;
use crate::receiver::DemodMode;
use crate::receiver::FftState;
use crate::receiver::FftWindow;
use crate::receiver::Station;
use crate::text;
use crate::theme;
use crate::theme::Color;

verus! {

/// The displayed bandwidth, twice the span: megahertz with two decimals from 1 MHz on, whole
/// kilohertz below.
pub open spec fn bandwidth_text(bandwidth_hz: nat) -> Seq<char> {
    if bandwidth_hz >= 1_000_000 {
        decimal::quotient_text(bandwidth_hz, 1_000_000, 2) + " MHz"@
    } else {
        decimal::quotient_text(bandwidth_hz, 1_000, 0) + " kHz"@
    }
}

pub fn bandwidth_label(span: u64) -> (r: String)
    requires
        span * 2 <= u64::MAX,
    ensures
        r@ == bandwidth_text((span * 2) as nat),
{
    let bw: u64 = span * 2;
    let mut s: String = String::new();
    if bw >= 1_000_000 {
        decimal::push_quotient(&mut s, bw, 1_000_000, 2);
        s.append(" MHz");
    } else {
        decimal::push_quotient(&mut s, bw, 1_000, 0);
        s.append(" kHz");
    }
    assert(s@ =~= bandwidth_text((span * 2) as nat));
    s
}

// ── Signal quality ──────────────────────────────────────────────────────────

/// Signal-to-noise ratios, as bit patterns, from which a signal is fair, good and excellent.
pub open spec fn quality_steps(mode: DemodMode) -> (u32, u32, u32) {
    match mode {
        // 8, 15 and 22 dB
        DemodMode::Wbfm => (0x4100_0000, 0x4170_0000, 0x41B0_0000),
        // 5, 10 and 16 dB
        DemodMode::Nfm => (0x40A0_0000, 0x4120_0000, 0x4180_0000),
        // 6, 12 and 18 dB
        DemodMode::Am => (0x40C0_0000, 0x4140_0000, 0x4190_0000),
        // 5, 10 and 15 dB
        _ => (0x40A0_0000, 0x4120_0000, 0x4170_0000),
    }
}

/// 0.0, the highest ceiling of the display.
pub const TOP_BITS: u32 = 0;

/// -160.0, the lowest floor of the display.
pub const BOTTOM_BITS: u32 = 0xC320_0000;

/// 2.0, from which two segments are lit.
pub const WEAK_SNR_BITS: u32 = 0x4000_0000;

/// Lit segments of the quality meter, 0 to 5.
pub open spec fn quality_spec(mode: DemodMode, is_running: bool, snr: Option<Level>) -> u8 {
    match snr {
        Some(x) => {
            let t = quality_steps(mode);
            if !is_running {
                0
            } else if x.reaches(level::of(t.2)) {
                5
            } else if x.reaches(level::of(t.1)) {
                4
            } else if x.reaches(level::of(t.0)) {
                3
            } else if x.reaches(level::of(WEAK_SNR_BITS)) {
                2
            } else {
                1
            }
        },
        None => 0,
    }
}

pub fn quality_segments(mode: DemodMode, is_running: bool, snr: Option<Level>) -> (r: u8)
    ensures
        r == quality_spec(mode, is_running, snr),
{
    match snr {
        Some(x) => {
            let (fair, good, excellent): (u32, u32, u32) = match mode {
                DemodMode::Wbfm => (0x4100_0000, 0x4170_0000, 0x41B0_0000),
                DemodMode::Nfm => (0x40A0_0000, 0x4120_0000, 0x4180_0000),
                DemodMode::Am => (0x40C0_0000, 0x4140_0000, 0x4190_0000),
                _ => (0x40A0_0000, 0x4120_0000, 0x4170_0000),
            };
            if !is_running {
                0
            } else if x.ge(level::of(excellent)) {
                5
            } else if x.ge(level::of(good)) {
                4
            } else if x.ge(level::of(fair)) {
                3
            } else if x.ge(level::of(WEAK_SNR_BITS)) {
                2
            } else {
                1
            }
        },
        None => 0,
    }
}

/// The word for a number of lit segments.
pub open spec fn quality_text(segments: u8) -> Seq<char> {
    if segments == 0 {
        ""@
    } else if segments >= 5 {
        "EXCELLENT"@
    } else if segments >= 4 {
        "GOOD"@
    } else if segments >= 3 {
        "FAIR"@
    } else {
        "POOR"@
    }
}

/// The word for a number of lit segments.
pub fn quality_label(segments: u8) -> (r: &'static str)
    ensures
        r@ == quality_text(segments),
{
    if segments == 0 {
        ""
    } else if segments >= 5 {
        "EXCELLENT"
    } else if segments >= 4 {
        "GOOD"
    } else if segments >= 3 {
        "FAIR"
    } else {
        "POOR"
    }
}

/// The colour of the lit segments.
pub open spec fn quality_color_spec(segments: u8) -> Color {
    if segments == 0 {
        theme::rgb(theme::TEXT_MUTED)
    } else if segments >= 4 {
        theme::rgb(theme::STATUS_OK)
    } else if segments >= 3 {
        theme::rgb(theme::AMBER)
    } else {
        theme::rgb(0xC83232)
    }
}

/// The colour of the lit segments.
pub fn quality_color(segments: u8) -> (c: Color)
    ensures
        c == quality_color_spec(segments),
{
    if segments == 0 {
        theme::rgb(theme::TEXT_MUTED)
    } else if segments >= 4 {
        theme::rgb(theme::STATUS_OK)
    } else if segments >= 3 {
        theme::rgb(theme::AMBER)
    } else {
        theme::rgb(0xC83232)
    }
}

/// A stronger signal never lights fewer segments.
pub proof fn law_quality_is_monotone(mode: DemodMode, is_running: bool, weak: Level, strong: Level)
    requires
        strong.reaches(weak),
    ensures
        quality_spec(mode, is_running, Some(weak)) <= quality_spec(mode, is_running, Some(strong)),
{
}

// ── Audio level ─────────────────────────────────────────────────────────────

/// Segments of the audio level bar.
pub const VU_SEGMENTS: u8 = 8;

/// The colour of a segment of the audio level bar.
pub open spec fn vu_color_spec(i: u8, lit: u8) -> Color {
    if i >= lit {
        theme::rgb(0x282828)
    } else if i >= 6 {
        theme::rgb(0xC83232)
    } else if i >= 5 {
        theme::rgb(0xF0A500)
    } else {
        theme::rgb(theme::STATUS_OK)
    }
}

/// Colour of a segment of the audio level bar, counted from below.
pub fn vu_segment_color(i: u8, lit: u8) -> (c: Color)
    ensures
        c == vu_color_spec(i, lit),
{
    if i >= lit {
        theme::rgb(0x282828)
    } else if i >= 6 {
        theme::rgb(0xC83232)
    } else if i >= 5 {
        theme::rgb(0xF0A500)
    } else {
        theme::rgb(theme::STATUS_OK)
    }
}

// ── Palettes ────────────────────────────────────────────────────────────────

/// Waterfall palette.
#[derive(Clone, Copy, PartialEq, Eq, Structural, Debug)]
pub enum WaterfallColormap {
    Thermal,
    Inferno,
    Grayscale,
    Classic,
}

/// The palette stored under a name; any other text counts as the thermal one.
pub open spec fn stored_palette(s: Seq<char>) -> WaterfallColormap {
    if s == "Grayscale"@ {
        WaterfallColormap::Grayscale
    } else if s == "Inferno"@ {
        WaterfallColormap::Inferno
    } else if s == "Classic"@ {
        WaterfallColormap::Classic
    } else {
        WaterfallColormap::Thermal
    }
}

pub fn parse_palette(s: &str) -> (r: WaterfallColormap)
    ensures
        r == stored_palette(s@),
{
    if text::same_text(s, "Grayscale") {
        WaterfallColormap::Grayscale
    } else if text::same_text(s, "Inferno") {
        WaterfallColormap::Inferno
    } else if text::same_text(s, "Classic") {
        WaterfallColormap::Classic
    } else {
        WaterfallColormap::Thermal
    }
}

impl WaterfallColormap {
    pub open spec fn stored_name(self) -> Seq<char> {
        match self {
            WaterfallColormap::Thermal => "Thermal"@,
            WaterfallColormap::Inferno => "Inferno"@,
            WaterfallColormap::Grayscale => "Grayscale"@,
            WaterfallColormap::Classic => "Classic"@,
        }
    }

    pub fn name(self) -> (r: &'static str)
        ensures
            r@ == self.stored_name(),
    {
        match self {
            WaterfallColormap::Thermal => "Thermal",
            WaterfallColormap::Inferno => "Inferno",
            WaterfallColormap::Grayscale => "Grayscale",
            WaterfallColormap::Classic => "Classic",
        }
    }
}

/// Reading back a stored palette gives the palette.
pub proof fn law_palette_name_round_trip(p: WaterfallColormap)
    ensures
        stored_palette(p.stored_name()) == p,
{
    reveal_strlit("Thermal");
    reveal_strlit("Inferno");
    reveal_strlit("Grayscale");
    reveal_strlit("Classic");
    assert("Thermal"@[0] == 'T' && "Inferno"@[0] == 'I' && "Grayscale"@[0] == 'G');
    assert("Classic"@[0] == 'C');
}

/// The transform sizes on offer.
pub open spec fn fft_size_spec(i: usize) -> usize {
    if i == 0 {
        512
    } else if i == 1 {
        1024
    } else if i == 2 {
        2048
    } else if i == 3 {
        4096
    } else {
        8192usize
    }
}

/// Transform sizes on offer.
pub fn fft_size_choice(i: usize) -> (r: usize)
    requires
        i < 5,
    ensures
        r == fft_size_spec(i),
{
    match i {
        0 => 512,
        1 => 1024,
        2 => 2048,
        3 => 4096,
        _ => 8192,
    }
}

/// The suggestion to switch to the mode that a band expects.
pub fn suggestion_text(band: &str, expected: DemodMode) -> (r: String)
    ensures
        r@ == "This looks like "@ + band@ + " — switch to "@ + expected.stored_name() + "?"@,
{
    let mut s: String = text::owned("This looks like ");
    s.append(band);
    s.append(" — switch to ");
    s.append(expected.name());
    s.append("?");
    s
}

/// What setting the speed of the waterfall does.
pub open spec fn after_speed(a: &SdrApp, speed: Level, n: &SdrApp) -> bool {
    n.with_ui(
        a,
        UiConfig { waterfall_speed: speed, ..a.config.ui },
        seq![Command::SetWaterfallSpeed(speed)],
    )
}

/// What choosing a transform size does.
pub open spec fn after_fft_size(a: &SdrApp, size: usize, current: usize, n: &SdrApp) -> bool {
    if size == current {
        *n == *a
    } else {
        n.with_ui(
            a,
            UiConfig { fft_size: size, ..a.config.ui },
            seq![Command::SetFftSize(size)],
        )
    }
}

/// What choosing a window function does.
pub open spec fn after_fft_window(
    a: &SdrApp,
    window: FftWindow,
    current: FftWindow,
    n: &SdrApp,
) -> bool {
    if window == current {
        *n == *a
    } else {
        &&& n.config.ui.fft_window@ == window.stored_name()
        &&& n.with_ui(
            a,
            UiConfig {
                fft_window: n.config.ui.fft_window,
                ..a.config.ui
            },
            seq![Command::SetFftWindow(window)],
        )
    }
}

/// What setting the averaging does.
pub open spec fn after_averaging(a: &SdrApp, frames: u8, n: &SdrApp) -> bool {
    n.with_ui(
        a,
        UiConfig { fft_averaging: frames, ..a.config.ui },
        seq![Command::SetFftAveraging(frames)],
    )
}

/// What the band plan button does.
pub open spec fn after_band_plan(a: &SdrApp, enabled: bool, n: &SdrApp) -> bool {
    n.with_ui(
        a,
        UiConfig { band_plan_enabled: !enabled, ..a.config.ui },
        seq![Command::SetBandPlanEnabled(!enabled)],
    )
}

/// What the peak hold button does.
pub open spec fn after_peak_hold(a: &SdrApp, enabled: bool, n: &SdrApp) -> bool {
    &&& n.queued(a, seq![Command::SetPeakHoldEnabled(!enabled)])
    &&& *n == (SdrApp {
        config_dirty: true,
        outbox: n.outbox,
        ..*a
    })
}

/// What setting the decay of peak hold does.
pub open spec fn after_decay(a: &SdrApp, decay: Level, n: &SdrApp) -> bool {
    &&& n.outbox@ == a.outbox@.push(Command::SetPeakHoldDecay(decay))
    &&& *n == (SdrApp { outbox: n.outbox, ..*a })
}

/// What choosing a palette does.
pub open spec fn after_palette(
    a: &SdrApp,
    name: Seq<char>,
    n: &SdrApp,
    r: Option<WaterfallColormap>,
) -> bool {
    if a.config.ui.waterfall_colormap@ == name {
        r is None && *n == *a
    } else {
        &&& r == Some(stored_palette(name))
        &&& n.config.ui.waterfall_colormap@ == name
        &&& n.with_ui(
            a,
            UiConfig {
                waterfall_colormap: n.config.ui.waterfall_colormap,
                ..a.config.ui
            },
            Seq::empty(),
        )
    }
}

/// What dragging the ceiling of the display does.
pub open spec fn after_ceil(
    a: &SdrApp,
    ceil: Level,
    lowest: Level,
    now_us: u64,
    n: &SdrApp,
) -> bool {
    let ceil = ceil.within(lowest, level::of(TOP_BITS));
    *n == (SdrApp {
        config: AppConfig {
            ui: UiConfig { fft_ceil: ceil, ..a.config.ui },
            ..a.config
        },
        config_dirty: true,
        display: center::set_by_hand(
            a.display,
            a.display.fft_floor,
            ceil,
            now_us,
        ),
        ..*a
    })
}

/// What dragging the floor of the display does.
pub open spec fn after_floor(
    a: &SdrApp,
    floor: Level,
    highest: Level,
    now_us: u64,
    n: &SdrApp,
) -> bool {
    let floor = floor.within(level::of(BOTTOM_BITS), highest);
    *n == (SdrApp {
        config: AppConfig {
            ui: UiConfig { fft_floor: floor, ..a.config.ui },
            ..a.config
        },
        config_dirty: true,
        display: center::set_by_hand(
            a.display,
            floor,
            a.display.fft_ceil,
            now_us,
        ),
        ..*a
    })
}

/// What the compact toggle of the automatic range does.
pub open spec fn after_auto_ref(a: &SdrApp, n: &SdrApp) -> bool {
    *n == (SdrApp {
        display: DisplayRange {
            auto_ref: !a.display.auto_ref,
            ..a.display
        },
        ..*a
    })
}

/// What the automatic range button does.
pub open spec fn after_auto(a: &SdrApp, snap: Option<(Level, Level)>, n: &SdrApp) -> bool {
    let on = !a.display.auto_ref;
    let d = DisplayRange { auto_ref: on, auto_armed: on, ..a.display };
    match snap {
        Some((floor, ceil)) if on => *n == (SdrApp {
            config: AppConfig {
                ui: UiConfig {
                    fft_floor: floor,
                    fft_ceil: ceil,
                    ..a.config.ui
                },
                ..a.config
            },
            config_dirty: true,
            display: DisplayRange { fft_floor: floor, fft_ceil: ceil, ..d },
            ..*a
        }),
        _ => *n == (SdrApp { display: d, ..*a }),
    }
}

impl SdrApp {
    /// `self` is `before` with other front-end settings, marked for saving, and `sent` queued.
    pub open spec fn with_ui(&self, before: &SdrApp, ui: UiConfig, sent: Seq<Command>) -> bool {
        &&& self.queued(before, sent)
        &&& *self == (SdrApp {
            config: AppConfig { ui, ..before.config },
            config_dirty: true,
            outbox: self.outbox,
            ..*before
        })
    }

    pub fn set_waterfall_speed(&mut self, speed: Level)
        ensures
            after_speed(old(self), speed, final(self)),
    {
        self.send(Command::SetWaterfallSpeed(speed));
        self.config.ui.waterfall_speed = speed;
        self.config_dirty = true;
    }

    /// A transform size was chosen; nothing happens when it is the current one.
    pub fn select_fft_size(&mut self, size: usize, current: usize)
        ensures
            after_fft_size(old(self), size, current, final(self)),
    {
        if size != current {
            self.send(Command::SetFftSize(size));
            self.config.ui.fft_size = size;
            self.config_dirty = true;
        }
    }

    /// A window function was chosen; nothing happens when it is the current one.
    pub fn select_fft_window(&mut self, window: FftWindow, current: FftWindow)
        ensures
            after_fft_window(old(self), window, current, final(self)),
    {
        if window != current {
            self.send(Command::SetFftWindow(window));
            self.config.ui.fft_window = text::owned(window.name());
            self.config_dirty = true;
        }
    }

    pub fn set_fft_averaging(&mut self, frames: u8)
        ensures
            after_averaging(old(self), frames, final(self)),
    {
        self.send(Command::SetFftAveraging(frames));
        self.config.ui.fft_averaging = frames;
        self.config_dirty = true;
    }

    pub fn toggle_band_plan(&mut self, enabled: bool)
        ensures
            after_band_plan(old(self), enabled, final(self)),
    {
        self.send(Command::SetBandPlanEnabled(!enabled));
        self.config.ui.band_plan_enabled = !enabled;
        self.config_dirty = true;
    }

    pub fn toggle_peak_hold(&mut self, enabled: bool)
        ensures
            after_peak_hold(old(self), enabled, final(self)),
    {
        self.send(Command::SetPeakHoldEnabled(!enabled));
        self.config_dirty = true;
    }

    pub fn set_peak_hold_decay(&mut self, decay: Level)
        ensures
            after_decay(old(self), decay, final(self)),
    {
        self.send(Command::SetPeakHoldDecay(decay));
    }

    /// A palette was chosen. Returns the palette to draw with, none when it is the current one.
    pub fn select_palette(&mut self, name: &str) -> (r: Option<WaterfallColormap>)
        ensures
            after_palette(old(self), name@, final(self), r),
    {
        if text::same_text(self.config.ui.waterfall_colormap.as_str(), name) {
            return None;
        }
        self.config.ui.waterfall_colormap = text::owned(name);
        self.config_dirty = true;
        Some(parse_palette(name))
    }

    /// The ceiling of the display was dragged to `ceil`; it is limited to `lowest`, which is the
    /// floor and 10 dB, below and 0 dBFS above. The range no longer follows the signal.
    pub fn drag_ceil(&mut self, ceil: Level, lowest: Level, now_us: u64)
        requires
            level::of(TOP_BITS).reaches(lowest),
        ensures
            after_ceil(old(self), ceil, lowest, now_us, final(self)),
    {
        let ceil: Level = ceil.clamp(lowest, level::of(TOP_BITS));
        self.display.fft_ceil = ceil;
        self.config.ui.fft_ceil = ceil;
        self.config_dirty = true;
        self.display.auto_ref = false;
        self.display.auto_armed = false;
        self.display.last_manual_us = now_us;
    }

    /// The floor of the display was dragged to `floor`; it is limited to -160 dBFS below and to
    /// `highest`, which is 10 dB under the ceiling, above. The range no longer follows the signal.
    pub fn drag_floor(&mut self, floor: Level, highest: Level, now_us: u64)
        requires
            highest.reaches(level::of(BOTTOM_BITS)),
        ensures
            after_floor(old(self), floor, highest, now_us, final(self)),
    {
        let floor: Level = floor.clamp(level::of(BOTTOM_BITS), highest);
        self.display.fft_floor = floor;
        self.config.ui.fft_floor = floor;
        self.config_dirty = true;
        self.display.auto_ref = false;
        self.display.auto_armed = false;
        self.display.last_manual_us = now_us;
    }

    /// The compact toggle of the automatic range.
    pub fn toggle_auto_ref(&mut self)
        ensures
            after_auto_ref(old(self), final(self)),
    {
        self.display.auto_ref = !self.display.auto_ref;
    }

    /// The "Auto" button: switching the automatic range on also snaps to the range of the current
    /// signal, `snap`, when it was measured.
    pub fn auto_button(&mut self, snap: Option<(Level, Level)>)
        ensures
            after_auto(old(self), snap, final(self)),
    {
        if !self.display.auto_ref {
            if let Some((floor, ceil)) = snap {
                self.display.fft_floor = floor;
                self.display.fft_ceil = ceil;
                self.config.ui.fft_floor = floor;
                self.config.ui.fft_ceil = ceil;
                self.config_dirty = true;
            }
        }
        self.display.auto_ref = !self.display.auto_ref;
        self.display.auto_armed = self.display.auto_ref;
    }
}

// ── Laws ────────────────────────────────────────────────────────────────────

/// The decibels from which a signal is fair, good and excellent: 8, 15 and 22 in wide FM, 5, 10 and
/// 16 in narrow FM, 6, 12 and 18 in AM, 5, 10 and 15 in all other modes.
pub open spec fn quality_decibels(mode: DemodMode) -> (int, int, int) {
    match mode {
        DemodMode::Wbfm => (8, 15, 22),
        DemodMode::Nfm => (5, 10, 16),
        DemodMode::Am => (6, 12, 18),
        _ => (5, 10, 15),
    }
}

/// A running receiver lights one segment for any signal, two from 2 dB on, three from where the mode
/// makes it fair, four from where it is good and five from where it is excellent; a stopped one, or
/// one without a measurement, lights none.
pub proof fn law_quality_thresholds(mode: DemodMode, x: Level)
    requires
        !x.is_nan(),
    ensures
        ({
            let (fair, good, excellent) = quality_decibels(mode);
            let snr = level::number_of(x.bits);
            let lit = quality_spec(mode, true, Some(x));
            &&& snr < level::whole(2) ==> lit == 1
            &&& level::whole(2) <= snr < level::whole(fair) ==> lit == 2
            &&& level::whole(fair) <= snr < level::whole(good) ==> lit == 3
            &&& level::whole(good) <= snr < level::whole(excellent) ==> lit == 4
            &&& level::whole(excellent) <= snr ==> lit == 5
        }),
        quality_spec(mode, false, Some(x)) == 0,
        quality_spec(mode, true, None) == 0,
{
    let t = quality_steps(mode);
    level::law_order_is_numeric(x, level::of(t.0));
    level::law_order_is_numeric(x, level::of(t.1));
    level::law_order_is_numeric(x, level::of(t.2));
    level::law_order_is_numeric(x, level::of(0x4000_0000));
    lemma_whole_decibels();
    lemma_pow2_pos(149);
}

/// The whole numbers of decibels that occur, by their bit patterns.
proof fn lemma_whole_decibels()
    ensures
        level::number_of(0x4000_0000) == level::whole(2),
        level::number_of(0x40A0_0000) == level::whole(5),
        level::number_of(0x40C0_0000) == level::whole(6),
        level::number_of(0x4100_0000) == level::whole(8),
        level::number_of(0x4120_0000) == level::whole(10),
        level::number_of(0x4140_0000) == level::whole(12),
        level::number_of(0x4170_0000) == level::whole(15),
        level::number_of(0x4180_0000) == level::whole(16),
        level::number_of(0x4190_0000) == level::whole(18),
        level::number_of(0x41B0_0000) == level::whole(22),
{
    lemma2_to64();
    level::lemma_whole(0x4000_0000, 2, 22);
    level::lemma_whole(0x40A0_0000, 5, 21);
    level::lemma_whole(0x40C0_0000, 6, 21);
    level::lemma_whole(0x4100_0000, 8, 20);
    level::lemma_whole(0x4120_0000, 10, 20);
    level::lemma_whole(0x4140_0000, 12, 20);
    level::lemma_whole(0x4170_0000, 15, 20);
    level::lemma_whole(0x4180_0000, 16, 19);
    level::lemma_whole(0x4190_0000, 18, 19);
    level::lemma_whole(0x41B0_0000, 22, 19);
}

/// The words go with the segments: nothing for none, poor for one or two, fair for three, good for
/// four, excellent for five; the colour is green from four on, amber for three, red for fewer.
pub proof fn law_quality_words(lit: u8)
    ensures
        lit == 0 ==> quality_text(lit) == ""@ && quality_color_spec(lit) == theme::rgb(0x788CAF),
        1 <= lit <= 2 ==> quality_text(lit) == "POOR"@ && quality_color_spec(lit) == theme::rgb(
            0xC83232,
        ),
        lit == 3 ==> quality_text(lit) == "FAIR"@ && quality_color_spec(lit) == theme::rgb(
            0xFFBE28,
        ),
        lit == 4 ==> quality_text(lit) == "GOOD"@ && quality_color_spec(lit) == theme::rgb(
            0x32DC50,
        ),
        lit >= 5 ==> quality_text(lit) == "EXCELLENT"@ && quality_color_spec(lit) == theme::rgb(
            0x32DC50,
        ),
{
}

/// The audio level bar is lit from below: its fifth segment is still green, the sixth amber, the
/// last two red, and a segment that is not lit is dark.
pub proof fn law_level_bar(i: u8, lit: u8)
    ensures
        i >= lit ==> vu_color_spec(i, lit) == theme::rgb(0x282828),
        i < lit && i < 5 ==> vu_color_spec(i, lit) == theme::rgb(0x32DC50),
        i < lit && i == 5 ==> vu_color_spec(i, lit) == theme::rgb(0xF0A500),
        i < lit && i > 5 ==> vu_color_spec(i, lit) == theme::rgb(0xC83232),
{
}

/// The transform sizes on offer are the powers of two from 512 to 8192, in ascending order.
pub proof fn law_sizes_double(i: usize)
    requires
        i < 4,
    ensures
        fft_size_spec(0) == 512,
        fft_size_spec((i + 1) as usize) == 2 * fft_size_spec(i),
{
}

/// The bandwidth is shown in megahertz from 1 MHz on and in kilohertz below, as text that ends in
/// that unit: whole kilohertz are exact.
pub proof fn law_bandwidth_unit(hz: nat)
    requires
        0 < hz < 0x20_0000_0000_0000,
    ensures
        hz >= 1_000_000 ==> text::ends_with(bandwidth_text(hz), " MHz"@),
        hz < 1_000_000 ==> text::ends_with(bandwidth_text(hz), " kHz"@),
        hz < 1_000_000 && hz % 1_000 == 0 ==> bandwidth_text(hz) == text::dec(hz / 1_000)
            + " kHz"@,
        hz >= 1_000_000 && hz % 1_000_000 == 0 ==> bandwidth_text(hz) == text::dec(hz / 1_000_000)
            + ".00 MHz"@,
{
    reveal_strlit(" MHz");
    reveal_strlit(" kHz");
    reveal_strlit(".00 MHz");
    let s = bandwidth_text(hz);
    assert(s.skip(s.len() - 4) =~= (if hz >= 1_000_000 {
        " MHz"@
    } else {
        " kHz"@
    }));
    if hz < 1_000_000 && hz % 1_000 == 0 {
        decimal::law_whole_quotient(hz / 1_000, 1_000, 0);
    }
    if hz >= 1_000_000 && hz % 1_000_000 == 0 {
        decimal::law_whole_quotient(hz / 1_000_000, 1_000_000, 2);
        reveal_with_fuel(text::dec_fixed, 3);
        assert(text::dec_fixed(0, 2) =~= seq!['0', '0']);
        assert(bandwidth_text(hz) =~= text::dec(hz / 1_000_000) + ".00 MHz"@);
    }
}

/// Each setting of the display is set in the receiver and in the stored settings alike; choosing the
/// transform size or the window in use changes nothing.
pub proof fn law_display_settings_take_effect(
    a: SdrApp,
    speed: Level,
    frames: u8,
    size: usize,
    current: usize,
    b: SdrApp,
    c: SdrApp,
    d: SdrApp,
    s: Station,
)
    requires
        after_speed(&a, speed, &b),
        after_averaging(&a, frames, &c),
        after_fft_size(&a, size, current, &d),
        s.fft.fft_size == current,
    ensures
        b.config.ui == (UiConfig { waterfall_speed: speed, ..a.config.ui }),
        app::received(s, &a, &b) == (Station { waterfall_speed: speed, ..s }),
        c.config.ui == (UiConfig { fft_averaging: frames, ..a.config.ui }),
        app::received(s, &a, &c) == (Station {
            fft: FftState { fft_averaging: frames, ..s.fft },
            ..s
        }),
        app::received(s, &a, &d) == (Station { fft: FftState { fft_size: size, ..s.fft }, ..s }),
        size == current ==> d == a,
        size != current ==> d.config.ui == (UiConfig { fft_size: size, ..a.config.ui }),
        b.config_dirty && c.config_dirty,
{
    reveal(receiver::obeyed);
    app::lemma_received_one(s, &a, &b, Command::SetWaterfallSpeed(speed));
    app::lemma_received_one(s, &a, &c, Command::SetFftAveraging(frames));
    if size == current {
        app::lemma_received_none(s, &a, &d);
    } else {
        app::lemma_received_one(s, &a, &d, Command::SetFftSize(size));
    }
}

/// Choosing a window function sets it in the receiver and stores its name; the one in use is not set
/// again.
pub proof fn law_window_takes_effect(
    a: SdrApp,
    window: FftWindow,
    current: FftWindow,
    n: SdrApp,
    s: Station,
)
    requires
        after_fft_window(&a, window, current, &n),
        s.fft.fft_window == current,
    ensures
        app::received(s, &a, &n) == (Station {
            fft: FftState { fft_window: window, ..s.fft },
            ..s
        }),
        window == current ==> n == a,
        window != current ==> n.config.ui.fft_window@ == window.stored_name() && n.config_dirty,
{
    reveal(receiver::obeyed);
    if window == current {
        app::lemma_received_none(s, &a, &n);
    } else {
        app::lemma_received_one(s, &a, &n, Command::SetFftWindow(window));
    }
}

/// The band plan and peak hold buttons switch to what was not the case; peak hold and its decay are
/// not among the stored settings.
pub proof fn law_display_switches(
    a: SdrApp,
    plan: bool,
    hold: bool,
    decay: Level,
    b: SdrApp,
    c: SdrApp,
    d: SdrApp,
    s: Station,
)
    requires
        after_band_plan(&a, plan, &b),
        after_peak_hold(&a, hold, &c),
        after_decay(&a, decay, &d),
    ensures
        b.config.ui.band_plan_enabled != plan,
        app::received(s, &a, &b) == (Station {
            fft: FftState { band_plan_enabled: b.config.ui.band_plan_enabled, ..s.fft },
            ..s
        }),
        app::received(s, &a, &c) == (Station {
            fft: FftState { peak_hold_enabled: !hold, ..s.fft },
            ..s
        }),
        c.config == a.config,
        app::received(s, &a, &d) == (Station {
            fft: FftState { peak_hold_decay_db: decay, ..s.fft },
            ..s
        }),
        d.config == a.config,
{
    reveal(receiver::obeyed);
    app::lemma_received_one(s, &a, &b, Command::SetBandPlanEnabled(!plan));
    app::lemma_received_one(s, &a, &c, Command::SetPeakHoldEnabled(!hold));
    app::lemma_received_one(s, &a, &d, Command::SetPeakHoldDecay(decay));
}

/// Dragging a bound of the display range sets it, in the display and in the settings, to the value
/// dragged to or to the nearest one allowed: the ceiling lies between its lowest value and 0 dBFS,
/// the floor between -160 dBFS and its highest value. The other bound stays, and the range no
/// longer follows the signal.
pub proof fn law_dragged_bounds(
    a: SdrApp,
    x: Level,
    limit: Level,
    now_us: u64,
    b: SdrApp,
    c: SdrApp,
)
    requires
        !x.is_nan(),
        !limit.is_nan(),
        level::whole(-160) <= level::number_of(limit.bits) <= level::whole(0),
        after_ceil(&a, x, limit, now_us, &b),
        after_floor(&a, x, limit, now_us, &c),
    ensures
        ({
            let at = level::number_of(x.bits);
            let end = level::number_of(limit.bits);
            let ceil = level::number_of(b.display.fft_ceil.bits);
            let floor = level::number_of(c.display.fft_floor.bits);
            &&& ceil == (if at < end {
                end
            } else if at > level::whole(0) {
                level::whole(0)
            } else {
                at
            })
            &&& floor == (if at < level::whole(-160) {
                level::whole(-160)
            } else if at > end {
                end
            } else {
                at
            })
        }),
        b.config.ui.fft_ceil == b.display.fft_ceil,
        c.config.ui.fft_floor == c.display.fft_floor,
        b.display.fft_floor == a.display.fft_floor,
        c.display.fft_ceil == a.display.fft_ceil,
        !b.display.auto_ref && !b.display.auto_armed && b.display.last_manual_us == now_us,
        !c.display.auto_ref && !c.display.auto_armed && c.display.last_manual_us == now_us,
        b.config_dirty && c.config_dirty,
{
    lemma2_to64();
    lemma_pow2_pos(149);
    level::lemma_whole(0xC320_0000, -160, 16);
    assert(level::number_of(0) == 0);
    assert(level::whole(0) == 0) by (nonlinear_arith);
    level::law_order_is_numeric(x, limit);
    level::law_order_is_numeric(limit, x);
    level::law_order_is_numeric(level::of(0), x);
    level::law_order_is_numeric(x, level::of(0xC320_0000));
}

/// The automatic range is switched to what it was not. The button also arms it, and switching it on
/// snaps the range to a measured signal; switching it off leaves the range.
pub proof fn law_automatic_range(
    a: SdrApp,
    snap: Option<(Level, Level)>,
    b: SdrApp,
    c: SdrApp,
)
    requires
        after_auto_ref(&a, &b),
        after_auto(&a, snap, &c),
    ensures
        b.display.auto_ref != a.display.auto_ref,
        b.display.fft_floor == a.display.fft_floor && b.display.fft_ceil == a.display.fft_ceil,
        b.config == a.config,
        c.display.auto_ref != a.display.auto_ref,
        c.display.auto_armed == c.display.auto_ref,
        !a.display.auto_ref && snap is Some ==> c.display.fft_floor == (snap->0).0
            && c.display.fft_ceil == (snap->0).1 && c.config.ui.fft_floor == (snap->0).0
            && c.config.ui.fft_ceil == (snap->0).1 && c.config_dirty,
        a.display.auto_ref || snap is None ==> c.display.fft_floor == a.display.fft_floor
            && c.display.fft_ceil == a.display.fft_ceil && c.config == a.config,
{
}

/// Choosing a palette stores its name and draws with the palette of that name; the one in use is not
/// set again.
pub proof fn law_palette_takes_effect(
    a: SdrApp,
    p: WaterfallColormap,
    n: SdrApp,
    r: Option<WaterfallColormap>,
)
    requires
        after_palette(&a, p.stored_name(), &n, r),
    ensures
        n.config.ui.waterfall_colormap@ == p.stored_name(),
        r is None ==> n == a,
        r is Some ==> r == Some(p) && n.config_dirty,
        r is None <==> a.config.ui.waterfall_colormap@ == p.stored_name(),
        n.outbox@ == a.outbox@,
{
    law_palette_name_round_trip(p);
}

} // verus!
