//! The centre panel: spectrum and waterfall interaction.

use vstd::arithmetic::power2::*;
use vstd::prelude::*;
use vstd::string::*;

use crate::app;
use crate::app::DisplayRange;
use crate::app::SdrApp;
use crate::app::Windows;
use crate::config::AppConfig;
use crate::config::UiConfig;
use crate::decimal;
use crate::frequency::FrequencyWidget;
use crate::level;
use crate::level::Level;
use crate::receiver;
use crate::receiver::Command;
use crate::receiver::DemodMode;
use crate::receiver::DemodState;
use crate::receiver::SharedState;
use crate::receiver::Station;
use crate::theme;
use crate::theme::Color;
use crate::waterfall::WaterfallOverlay;

verus! {

/// Smallest move that clears the waterfall.
pub const CLEAR_MIN_HZ: u64 = 50_000;

/// Width of a bucket in which a dismissed suggestion stays away.
pub const BUCKET_HZ: u64 = 500_000;

/// How long the saturation badge stays after the last saturated frame.
pub const BADGE_HOLD_US: u64 = 2_000_000;

/// Half period of the flashing badge.
pub const BADGE_FLASH_US: u64 = 400_000;

/// Quiet time after which automatic range is armed again.
pub const REARM_US: u64 = 10_000_000;

/// Fewest bins over which the range follows the signal.
pub const MIN_FOLLOW_BINS: usize = 10;

/// 0.15
pub const MIN_SPLIT_BITS: u32 = 0x3E19_999A;

/// 0.8
pub const MAX_SPLIT_BITS: u32 = 0x3F4C_CCCD;

/// -60.0
pub const STRONG_BITS: u32 = 0xC270_0000;

/// -80.0
pub const MARGINAL_BITS: u32 = 0xC2A0_0000;

// ── Pass band ───────────────────────────────────────────────────────────────

pub open spec fn minus_or_zero(a: u64, b: u64) -> u64 {
    if a < b {
        0
    } else {
        (a - b) as u64
    }
}

/// How far the pass band reaches below and above the tuned frequency.
pub open spec fn reach(mode: DemodMode, nfm_bw_hz: u32) -> (u64, u64) {
    match mode {
        DemodMode::Wbfm => (100_000, 100_000),
        DemodMode::Nfm => ((nfm_bw_hz / 2) as u64, (nfm_bw_hz / 2) as u64),
        DemodMode::Am => (5_000, 5_000),
        DemodMode::Dsb => (3_000, 3_000),
        DemodMode::Usb => (0, 3_000),
        DemodMode::Lsb => (3_000, 0),
        DemodMode::Cw => (400, 400),
    }
}

/// The edges of the pass band; both at the tuned frequency while the receiver is stopped.
pub open spec fn passband_spec(
    freq: u64,
    mode: DemodMode,
    nfm_bw_hz: u32,
    is_running: bool,
) -> (u64, u64) {
    if is_running {
        (
            minus_or_zero(freq, reach(mode, nfm_bw_hz).0),
            (freq + reach(mode, nfm_bw_hz).1) as u64,
        )
    } else {
        (freq, freq)
    }
}

pub fn passband(freq: u64, mode: DemodMode, nfm_bw_hz: u32, is_running: bool) -> (r: (u64, u64))
    requires
        freq + reach(mode, nfm_bw_hz).1 <= u64::MAX,
    ensures
        r == passband_spec(freq, mode, nfm_bw_hz, is_running),
        r.0 <= freq <= r.1,
{
    if !is_running {
        return (freq, freq);
    }
    let (below, above): (u64, u64) = match mode {
        DemodMode::Wbfm => (100_000, 100_000),
        DemodMode::Nfm => ((nfm_bw_hz / 2) as u64, (nfm_bw_hz / 2) as u64),
        DemodMode::Am => (5_000, 5_000),
        DemodMode::Dsb => (3_000, 3_000),
        DemodMode::Usb => (0, 3_000),
        DemodMode::Lsb => (3_000, 0),
        DemodMode::Cw => (400, 400),
    };
    (freq.saturating_sub(below), freq + above)
}

/// While the receiver runs, the pass band of each demodulator is where its signal lies: for LSB
/// the 3 kHz below the tuned frequency, for USB the 3 kHz above it, for all others as far below as
/// above, 200 kHz wide for WBFM, 10 kHz for AM, 6 kHz for DSB, 800 Hz for CW, and for NFM as wide
/// as its channel in whole hertz on each side. While it is stopped, the band is empty.
pub proof fn law_passband_of_each_mode(freq: u64, nfm_bw_hz: u32)
    requires
        100_000 <= freq,
        nfm_bw_hz <= 2 * freq,
        freq + 0x1_0000_0000 <= u64::MAX,
    ensures
        ({
            let band = |mode: DemodMode| passband_spec(freq, mode, nfm_bw_hz, true);
            &&& band(DemodMode::Lsb) == ((freq - 3_000) as u64, freq)
            &&& band(DemodMode::Usb) == (freq, (freq + 3_000) as u64)
            &&& band(DemodMode::Wbfm) == ((freq - 100_000) as u64, (freq + 100_000) as u64)
            &&& band(DemodMode::Am) == ((freq - 5_000) as u64, (freq + 5_000) as u64)
            &&& band(DemodMode::Dsb) == ((freq - 3_000) as u64, (freq + 3_000) as u64)
            &&& band(DemodMode::Cw) == ((freq - 400) as u64, (freq + 400) as u64)
            &&& freq - band(DemodMode::Nfm).0 == band(DemodMode::Nfm).1 - freq
            &&& 0 <= nfm_bw_hz - (band(DemodMode::Nfm).1 - band(DemodMode::Nfm).0) <= 1
        }),
        forall|mode: DemodMode|
            #![trigger passband_spec(freq, mode, nfm_bw_hz, false)]
            passband_spec(freq, mode, nfm_bw_hz, false) == (freq, freq),
{
}

/// `r` marks the tuned frequency and the pass band in a view of `span` to either side.
pub open spec fn is_overlay(
    freq: u64,
    span: u64,
    mode: DemodMode,
    nfm_bw_hz: u32,
    is_running: bool,
    r: WaterfallOverlay,
) -> bool {
    &&& r.vfo_hz == freq
    &&& r.freq_range == (minus_or_zero(freq, span), (freq + span) as u64)
    &&& (r.filter_lo_hz, r.filter_hi_hz) == passband_spec(freq, mode, nfm_bw_hz, is_running)
}

/// The overlay that marks the tuned frequency on the waterfall.
pub fn waterfall_overlay(
    freq: u64,
    span: u64,
    mode: DemodMode,
    nfm_bw_hz: u32,
    is_running: bool,
) -> (r: WaterfallOverlay)
    requires
        freq + span <= u64::MAX,
        freq + reach(mode, nfm_bw_hz).1 <= u64::MAX,
    ensures
        is_overlay(freq, span, mode, nfm_bw_hz, is_running, r),
{
    let (lo, hi): (u64, u64) = passband(freq, mode, nfm_bw_hz, is_running);
    WaterfallOverlay {
        vfo_hz: freq,
        freq_range: (freq.saturating_sub(span), freq + span),
        filter_lo_hz: lo,
        filter_hi_hz: hi,
    }
}

// ── Tuning gestures ─────────────────────────────────────────────────────────

/// The frequency after dragging the view by `delta_hz`: dragging right shows lower frequencies.
pub open spec fn panned(freq: u64, delta_hz: int) -> u64 {
    if delta_hz < 0 {
        if freq - delta_hz > u64::MAX {
            u64::MAX
        } else {
            (freq - delta_hz) as u64
        }
    } else if freq - delta_hz < 1 {
        1
    } else {
        (freq - delta_hz) as u64
    }
}

/// The frequency after one scroll step.
pub open spec fn scrolled(freq: u64, step: u64, up: bool) -> u64 {
    if up {
        if freq + step > u64::MAX {
            u64::MAX
        } else {
            (freq + step) as u64
        }
    } else if freq - step < 1 {
        1
    } else {
        (freq - step) as u64
    }
}

/// A hint that the user followed.
#[derive(Clone, Copy)]
pub enum HintAction {
    ZoomOut,
    SetVolume(Level),
    SetDemodMode(DemodMode),
    DisableFmNotch,
    MaxAttenuation,
}

/// The colour of a hint of a priority, 0 being the most urgent.
pub open spec fn hint_color_spec(priority: u8) -> Color {
    if priority == 0 {
        theme::rgb(0xDC3232)
    } else if priority <= 2 {
        theme::rgb(0xF0A500)
    } else {
        theme::rgb(theme::TEXT_MUTED)
    }
}

/// Colour of a hint: red when urgent, amber when important, muted otherwise.
pub fn hint_color(priority: u8) -> (c: Color)
    ensures
        c == (if priority == 0 {
            theme::rgb(0xDC3232)
        } else if priority <= 2 {
            theme::rgb(0xF0A500)
        } else {
            theme::rgb(theme::TEXT_MUTED)
        }),
        c == hint_color_spec(priority),
{
    if priority == 0 {
        theme::rgb(0xDC3232)
    } else if priority <= 2 {
        theme::rgb(0xF0A500)
    } else {
        theme::rgb(theme::TEXT_MUTED)
    }
}

/// The colour of a signal strength.
pub open spec fn strength_color_spec(level_dbfs: Level, weak: Color) -> Color {
    if level_dbfs.reaches(level::of(STRONG_BITS)) {
        theme::rgb(0x1EC850)
    } else if level_dbfs.reaches(level::of(MARGINAL_BITS)) {
        theme::rgb(0xD2AA00)
    } else {
        weak
    }
}

/// Colour of a signal strength: green from -60 dBFS, yellow from -80 dBFS, else `weak`.
pub fn strength_color(level_dbfs: Level, weak: Color) -> (c: Color)
    ensures
        c == (if level_dbfs.reaches(level::of(STRONG_BITS)) {
            theme::rgb(0x1EC850)
        } else if level_dbfs.reaches(level::of(MARGINAL_BITS)) {
            theme::rgb(0xD2AA00)
        } else {
            weak
        }),
        c == strength_color_spec(level_dbfs, weak),
{
    if level_dbfs.ge(level::of(STRONG_BITS)) {
        theme::rgb(0x1EC850)
    } else if level_dbfs.ge(level::of(MARGINAL_BITS)) {
        theme::rgb(0xD2AA00)
    } else {
        weak
    }
}

/// The label of a frequency under the pointer, in megahertz with four decimals.
pub fn hover_label(hz: u64) -> (r: String)
    ensures
        r@ == decimal::quotient_text(hz as nat, 1_000_000, 4) + " MHz"@,
{
    let mut s: String = String::new();
    decimal::push_quotient(&mut s, hz, 1_000_000, 4);
    s.append(" MHz");
    assert(s@ =~= decimal::quotient_text(hz as nat, 1_000_000, 4) + " MHz"@);
    s
}

/// The move that clears the waterfall: more than a tenth of the bandwidth.
pub open spec fn clear_threshold(sample_rate_sps: u32) -> u64 {
    if (sample_rate_sps / 10) < CLEAR_MIN_HZ {
        CLEAR_MIN_HZ
    } else {
        (sample_rate_sps / 10) as u64
    }
}

pub open spec fn distance(a: u64, b: u64) -> nat {
    if a < b {
        (b - a) as nat
    } else {
        (a - b) as nat
    }
}

/// Rows painted at `painted_hz` are too far off to be kept at `freq`.
pub open spec fn is_stale(freq: u64, painted_hz: u64, sample_rate_sps: u32) -> bool {
    distance(freq, painted_hz) > clear_threshold(sample_rate_sps)
}

/// Half the width of the view.
pub open spec fn view_span_spec(sample_rate_sps: u32, zoomed: u64, stored: u64) -> u64 {
    if sample_rate_sps / 2 > 0 {
        zoomed
    } else {
        stored
    }
}

// ── Badge and suggestion ────────────────────────────────────────────────────

/// When the converter last saturated, as noted in a frame at `now_us`.
pub open spec fn last_saturated(last: Option<u64>, clipping: bool, now_us: u64) -> Option<u64> {
    if clipping {
        Some(now_us)
    } else {
        last
    }
}

/// The saturation badge: none, or whether it is lit brightly.
pub open spec fn badge(last: Option<u64>, clipping: bool, now_us: u64) -> Option<bool> {
    let noted = last_saturated(last, clipping, now_us);
    if noted is Some && now_us - noted->0 < BADGE_HOLD_US {
        Some(clipping && (now_us / BADGE_FLASH_US) % 2 == 0)
    } else {
        None
    }
}

/// The display state after tuning to `freq`, as far as the suggestion goes.
pub open spec fn tracked_bucket(d: DisplayRange, freq: u64) -> DisplayRange {
    DisplayRange {
        freq_bucket: freq / BUCKET_HZ,
        suggest_dismissed: d.suggest_dismissed && d.freq_bucket == freq / BUCKET_HZ,
        ..d
    }
}

/// Whether the mode that the band expects is suggested.
pub open spec fn is_suggested(
    d: DisplayRange,
    expected: Option<DemodMode>,
    mode: DemodMode,
    is_running: bool,
) -> bool {
    expected is Some && expected->0 != mode && !d.suggest_dismissed && is_running
}

// ── Display range ───────────────────────────────────────────────────────────

/// The range follows the signal over a spectrum of `bins` bins.
pub open spec fn follows(d: DisplayRange, bins: usize) -> bool {
    d.auto_ref && bins >= MIN_FOLLOW_BINS
}

/// The range after a frame of `bins` bins that asks for the bounds `floor` and `ceil`.
pub open spec fn followed(
    d: DisplayRange,
    bins: usize,
    floor: Level,
    floor_moves: bool,
    ceil: Level,
    ceil_moves: bool,
) -> DisplayRange {
    DisplayRange {
        fft_floor: if follows(d, bins) && floor_moves {
            floor
        } else {
            d.fft_floor
        },
        fft_ceil: if follows(d, bins) && ceil_moves {
            ceil
        } else {
            d.fft_ceil
        },
        ..d
    }
}

/// The range that is armed again at `now_us`, when it is due.
pub open spec fn rearmed(d: DisplayRange, now_us: u64) -> DisplayRange {
    let due = !d.auto_armed && now_us - d.last_manual_us > REARM_US;
    DisplayRange { auto_armed: d.auto_armed || due, auto_ref: d.auto_ref || due, ..d }
}

/// The range after its bounds were set by hand at `now_us`.
pub open spec fn set_by_hand(
    d: DisplayRange,
    floor: Level,
    ceil: Level,
    now_us: u64,
) -> DisplayRange {
    DisplayRange {
        fft_floor: floor,
        fft_ceil: ceil,
        auto_ref: false,
        auto_armed: false,
        last_manual_us: now_us,
        ..d
    }
}

/// What a frame does while the scanner may have retuned the hardware.
pub open spec fn after_scanner(a: &SdrApp, shared: &SharedState, n: &SdrApp) -> bool {
    if shared.scanner.scan_running && shared.center_freq_hz != 0
        && shared.center_freq_hz != a.config.ui.frequency_hz {
        &&& app::is_fresh_widget(n.frequency_widget, shared.center_freq_hz)
        &&& *n == (SdrApp {
            config: AppConfig {
                ui: UiConfig {
                    frequency_hz: shared.center_freq_hz,
                    ..a.config.ui
                },
                ..a.config
            },
            frequency_widget: n.frequency_widget,
            ..*a
        })
    } else {
        *n == *a
    }
}

/// What setting the zoom does.
pub open spec fn after_zoom(a: &SdrApp, zoom: Level, min_zoom: Level, n: &SdrApp) -> bool {
    let z = zoom.within(min_zoom, level::of(level::ONE_BITS));
    &&& n.queued(a, seq![Command::SetZoom(z)])
    &&& *n == (SdrApp {
        config: AppConfig {
            ui: UiConfig { zoom_level: z, ..a.config.ui },
            ..a.config
        },
        config_dirty: true,
        outbox: n.outbox,
        ..*a
    })
}

/// What following a hint does.
pub open spec fn after_hint(
    a: &SdrApp,
    action: HintAction,
    wider: Level,
    min_zoom: Level,
    n: &SdrApp,
) -> bool {
    match action {
        HintAction::ZoomOut => {
            let z = wider.within(min_zoom, level::of(level::ONE_BITS));
            &&& n.queued(a, seq![Command::SetZoom(z)])
            &&& *n == (SdrApp {
                config: AppConfig {
                    ui: UiConfig { zoom_level: z, ..a.config.ui },
                    ..a.config
                },
                config_dirty: true,
                outbox: n.outbox,
                ..*a
            })
        },
        HintAction::SetVolume(v) => {
            &&& n.queued(a, seq![Command::SetVolume(v)])
            &&& *n == (SdrApp {
                config: AppConfig {
                    ui: UiConfig { volume: v, ..a.config.ui },
                    ..a.config
                },
                config_dirty: true,
                outbox: n.outbox,
                ..*a
            })
        },
        HintAction::SetDemodMode(mode) => {
            &&& n.queued(a, seq![Command::SetDemodMode(mode)])
            &&& *n == (SdrApp { outbox: n.outbox, ..*a })
        },
        HintAction::DisableFmNotch => n.with_source(
            a,
            crate::config::SourceConfig {
                fm_notch_enabled: false,
                ..a.config.source
            },
            seq![Command::SetFmNotch(false)],
        ),
        HintAction::MaxAttenuation => n.with_source(
            a,
            crate::config::SourceConfig {
                agc_setpoint_dbfs: crate::device::MAX_ATTEN_SETPOINT,
                ..a.config.source
            },
            seq![
                Command::SetLnaState(crate::device::MAX_ATTEN_LNA),
                Command::SetAgcSetpoint(crate::device::MAX_ATTEN_SETPOINT),
            ],
        ),
    }
}

/// What moving the divider does.
pub open spec fn after_split(a: &SdrApp, split: Level, n: &SdrApp) -> bool {
    *n == (SdrApp {
        config: AppConfig {
            ui: UiConfig {
                spectrum_split: split.within(
                    level::of(MIN_SPLIT_BITS),
                    level::of(MAX_SPLIT_BITS),
                ),
                ..a.config.ui
            },
            ..a.config
        },
        config_dirty: true,
        ..*a
    })
}

/// What answering the suggestion does.
pub open spec fn after_answer(a: &SdrApp, expected: DemodMode, accepted: bool, n: &SdrApp) -> bool {
    &&& n.queued(
        a,
        if accepted {
            seq![Command::SetDemodMode(expected)]
        } else {
            Seq::empty()
        },
    )
    &&& *n == (SdrApp {
        outbox: n.outbox,
        display: DisplayRange { suggest_dismissed: true, ..a.display },
        ..*a
    })
}

/// What the keys of the overview do.
pub open spec fn after_overlay(a: &SdrApp, question: bool, close: bool, n: &SdrApp) -> bool {
    *n == (SdrApp {
        windows: Windows {
            shortcuts: (a.windows.shortcuts != question) && !close,
            ..a.windows
        },
        ..*a
    })
}

/// What a frame takes over from the handbook.
pub open spec fn after_handbook_sync(
    a: &SdrApp,
    viewport_open: bool,
    section: usize,
    page: usize,
    n: &SdrApp,
) -> bool {
    let w = a.windows.handbook && viewport_open;
    let changed = viewport_open && (a.config.ui.handbook_section != section
        || a.config.ui.handbook_page != page || a.config.ui.show_handbook != a.windows.handbook);
    *n == (SdrApp {
        config: AppConfig {
            ui: if changed {
                UiConfig {
                    handbook_section: section,
                    handbook_page: page,
                    show_handbook: a.windows.handbook,
                    ..a.config.ui
                }
            } else {
                a.config.ui
            },
            ..a.config
        },
        config_dirty: a.config_dirty || changed,
        windows: Windows { handbook: w, ..a.windows },
        ..*a
    })
}

/// What dismissing the first-run overlay does.
pub open spec fn after_dismissal(a: &SdrApp, n: &SdrApp) -> bool {
    *n == (SdrApp {
        config: AppConfig {
            ui: UiConfig { seen_onboarding: true, ..a.config.ui },
            ..a.config
        },
        config_dirty: true,
        windows: Windows { onboarding: false, ..a.windows },
        ..*a
    })
}

/// What a frame takes over from the MIDI mapper.
pub open spec fn after_mapper_sync(a: &SdrApp, viewport_open: bool, n: &SdrApp) -> bool {
    *n == (SdrApp {
        windows: Windows {
            midi_mapper: a.windows.midi_mapper && viewport_open,
            ..a.windows
        },
        ..*a
    })
}

impl SdrApp {
    /// A running scanner retunes the hardware itself; the display follows it.
    pub fn follow_scanner(&mut self, shared: &SharedState)
        ensures
            after_scanner(old(self), shared, final(self)),
    {
        let hw: u64 = shared.center_freq_hz;
        if shared.scanner.scan_running && hw != 0 && hw != self.config.ui.frequency_hz {
            self.config.ui.frequency_hz = hw;
            self.frequency_widget = FrequencyWidget::new(hw);
        }
    }

    /// Whether the waterfall is to be cleared because the frequency moved too far from the one
    /// its rows belong to.
    pub fn waterfall_is_stale(&mut self, sample_rate_sps: u32) -> (clear: bool)
        ensures
            clear == (distance(
                old(self).config.ui.frequency_hz,
                old(self).display.waterfall_freq,
            ) > clear_threshold(sample_rate_sps)),
            clear == is_stale(
                old(self).config.ui.frequency_hz,
                old(self).display.waterfall_freq,
                sample_rate_sps,
            ),
            *final(self) == (SdrApp {
                display: DisplayRange {
                    waterfall_freq: if clear {
                        old(self).config.ui.frequency_hz
                    } else {
                        old(self).display.waterfall_freq
                    },
                    ..old(self).display
                },
                ..*old(self)
            }),
            distance(final(self).config.ui.frequency_hz, final(self).display.waterfall_freq)
                <= clear_threshold(sample_rate_sps),
    {
        let tenth: u64 = (sample_rate_sps / 10) as u64;
        let threshold: u64 = if tenth < CLEAR_MIN_HZ {
            CLEAR_MIN_HZ
        } else {
            tenth
        };
        let freq: u64 = self.config.ui.frequency_hz;
        let last: u64 = self.display.waterfall_freq;
        let delta: u64 = if freq < last {
            last - freq
        } else {
            freq - last
        };
        if delta > threshold {
            self.display.waterfall_freq = freq;
            true
        } else {
            false
        }
    }

    /// Half the width of the view: `zoomed`, which is half the sample rate times the zoom, or the
    /// stored span while the sample rate is unknown.
    pub fn view_span(&self, sample_rate_sps: u32, zoomed: u64) -> (r: u64)
        ensures
            r == (if sample_rate_sps / 2 > 0 {
                zoomed
            } else {
                self.config.ui.span_hz
            }),
            r == view_span_spec(sample_rate_sps, zoomed, self.config.ui.span_hz),
    {
        if sample_rate_sps / 2 > 0 {
            zoomed
        } else {
            self.config.ui.span_hz
        }
    }

    /// Drags the view.
    pub fn pan(&mut self, freq: u64, delta_hz: i64)
        requires
            delta_hz > i64::MIN,
        ensures
            app::after_apply_tune(old(self), panned(freq, delta_hz as int), final(self)),
    {
        let hz: u64 = if delta_hz < 0 {
            freq.saturating_add((-delta_hz) as u64)
        } else {
            let r: u64 = freq.saturating_sub(delta_hz as u64);
            if r < 1 {
                1
            } else {
                r
            }
        };
        self.apply_tune(hz);
    }

    /// Scrolls over the view: one tuning step.
    pub fn scroll_tune(&mut self, freq: u64, step: u64, up: bool)
        ensures
            app::after_apply_tune(old(self), scrolled(freq, step, up), final(self)),
    {
        let hz: u64 = if up {
            freq.saturating_add(step)
        } else {
            let r: u64 = freq.saturating_sub(step);
            if r < 1 {
                1
            } else {
                r
            }
        };
        self.apply_tune(hz);
    }

    /// Sets the zoom, limited to `[min_zoom, 1]`.
    pub fn set_zoom(&mut self, zoom: Level, min_zoom: Level)
        requires
            level::of(level::ONE_BITS).reaches(min_zoom),
        ensures
            after_zoom(old(self), zoom, min_zoom, final(self)),
    {
        let z: Level = zoom.clamp(min_zoom, level::of(level::ONE_BITS));
        self.send(Command::SetZoom(z));
        self.config.ui.zoom_level = z;
        self.config_dirty = true;
    }

    /// Follows a hint. `wider` is the zoom of a zoomed-out view.
    pub fn apply_hint(&mut self, action: HintAction, wider: Level, min_zoom: Level)
        requires
            level::of(level::ONE_BITS).reaches(min_zoom),
        ensures
            after_hint(old(self), action, wider, min_zoom, final(self)),
    {
        match action {
            HintAction::ZoomOut => self.set_zoom(wider, min_zoom),
            HintAction::SetVolume(v) => self.set_volume(v),
            HintAction::SetDemodMode(mode) => self.send(Command::SetDemodMode(mode)),
            HintAction::DisableFmNotch => self.set_fm_notch(false),
            HintAction::MaxAttenuation => self.max_attenuation(),
        }
    }

    // ── Suggestion to switch the demodulator ────────────────────────────────

    /// Moving to another bucket forgets a dismissed suggestion.
    pub fn track_bucket(&mut self, freq: u64)
        ensures
            final(self).display.freq_bucket == freq / BUCKET_HZ,
            final(self).display == tracked_bucket(old(self).display, freq),
            *final(self) == (SdrApp {
                display: DisplayRange {
                    freq_bucket: freq / BUCKET_HZ,
                    suggest_dismissed: old(self).display.suggest_dismissed && old(
                        self,
                    ).display.freq_bucket == freq / BUCKET_HZ,
                    ..old(self).display
                },
                ..*old(self)
            }),
    {
        let bucket: u64 = freq / BUCKET_HZ;
        if bucket != self.display.freq_bucket {
            self.display.suggest_dismissed = false;
            self.display.freq_bucket = bucket;
        }
    }

    /// Whether to suggest the mode that the band expects.
    pub fn suggests(
        &self,
        expected: Option<DemodMode>,
        mode: DemodMode,
        is_running: bool,
    ) -> (r: bool)
        ensures
            r == (expected is Some && expected->0 != mode && !self.display.suggest_dismissed
                && is_running),
            r == is_suggested(self.display, expected, mode, is_running),
    {
        match expected {
            Some(e) => e != mode && !self.display.suggest_dismissed && is_running,
            None => false,
        }
    }

    /// Answers the suggestion: `accepted` switches to the expected mode.
    pub fn answer_suggestion(&mut self, expected: DemodMode, accepted: bool)
        ensures
            after_answer(old(self), expected, accepted, final(self)),
    {
        if accepted {
            self.send(Command::SetDemodMode(expected));
        }
        self.display.suggest_dismissed = true;
    }

    // ── Saturation badge ────────────────────────────────────────────────────

    /// The saturation badge of this frame: none, or whether it is lit brightly. It stays for two
    /// seconds after the last saturated frame and flashes while the converter saturates.
    pub fn clipping_badge(&mut self, clipping: bool, now_us: u64) -> (r: Option<bool>)
        ensures
            r == badge(old(self).display.last_clipping_us, clipping, now_us),
            final(self).display.last_clipping_us == (if r is Some {
                last_saturated(old(self).display.last_clipping_us, clipping, now_us)
            } else {
                None
            }),
            ({
                let last = if clipping {
                    Some(now_us)
                } else {
                    old(self).display.last_clipping_us
                };
                let shown = last is Some && now_us - last->0 < BADGE_HOLD_US;
                &&& r == (if shown {
                    Some(clipping && (now_us / BADGE_FLASH_US) % 2 == 0)
                } else {
                    None
                })
                &&& *final(self) == (SdrApp {
                    display: DisplayRange {
                        last_clipping_us: if shown {
                            last
                        } else {
                            None
                        },
                        ..old(self).display
                    },
                    ..*old(self)
                })
            }),
    {
        if clipping {
            self.display.last_clipping_us = Some(now_us);
        }
        if let Some(t) = self.display.last_clipping_us {
            if now_us.saturating_sub(t) < BADGE_HOLD_US {
                return Some(clipping && (now_us / BADGE_FLASH_US) % 2 == 0);
            }
            self.display.last_clipping_us = None;
        }
        None
    }

    // ── Display range ───────────────────────────────────────────────────────

    /// Follows the signal, over a spectrum of `bins` bins: a bound moves when it is a full decibel
    /// away from its target.
    pub fn follow_signal(
        &mut self,
        bins: usize,
        floor: Level,
        floor_moves: bool,
        ceil: Level,
        ceil_moves: bool,
    )
        ensures
            ({
                let f = follows(old(self).display, bins) && floor_moves;
                let c = follows(old(self).display, bins) && ceil_moves;
                *final(self) == (SdrApp {
                    config: AppConfig {
                        ui: UiConfig {
                            fft_floor: if f {
                                floor
                            } else {
                                old(self).config.ui.fft_floor
                            },
                            fft_ceil: if c {
                                ceil
                            } else {
                                old(self).config.ui.fft_ceil
                            },
                            ..old(self).config.ui
                        },
                        ..old(self).config
                    },
                    config_dirty: old(self).config_dirty || f || c,
                    display: followed(
                        old(self).display,
                        bins,
                        floor,
                        floor_moves,
                        ceil,
                        ceil_moves,
                    ),
                    ..*old(self)
                })
            }),
    {
        if self.display.auto_ref && bins >= MIN_FOLLOW_BINS {
            if floor_moves {
                self.display.fft_floor = floor;
                self.config.ui.fft_floor = floor;
                self.config_dirty = true;
            }
            if ceil_moves {
                self.display.fft_ceil = ceil;
                self.config.ui.fft_ceil = ceil;
                self.config_dirty = true;
            }
        }
    }

    /// Ten seconds after the last manual change the range follows the signal again.
    pub fn rearm_auto_range(&mut self, now_us: u64)
        ensures
            *final(self) == (SdrApp {
                display: rearmed(old(self).display, now_us),
                ..*old(self)
            }),
    {
        if !self.display.auto_armed && now_us.saturating_sub(self.display.last_manual_us)
            > REARM_US {
            self.display.auto_armed = true;
            self.display.auto_ref = true;
        }
    }

    // ── Onboarding ──────────────────────────────────────────────────────────

    /// Any click or key dismisses the first-run overlay for good.
    pub fn dismiss_onboarding(&mut self)
        ensures
            after_dismissal(old(self), final(self)),
    {
        self.windows.onboarding = false;
        self.config.ui.seen_onboarding = true;
        self.config_dirty = true;
    }

    // ── Windows ─────────────────────────────────────────────────────────────

    /// Moves the divider between spectrum and waterfall.
    pub fn drag_split(&mut self, split: Level)
        ensures
            after_split(old(self), split, final(self)),
    {
        self.config.ui.spectrum_split = split.clamp(
            level::of(MIN_SPLIT_BITS),
            level::of(MAX_SPLIT_BITS),
        );
        self.config_dirty = true;
    }

    /// The overview of keys and gestures: the question mark opens or closes it; the escape key and
    /// the button close it.
    pub fn shortcut_overlay(&mut self, question: bool, close: bool)
        ensures
            after_overlay(old(self), question, close, final(self)),
    {
        if question {
            self.windows.shortcuts = !self.windows.shortcuts;
        }
        if close {
            self.windows.shortcuts = false;
        }
    }

    /// The MIDI mapper window was closed in the last frame.
    pub fn sync_midi_mapper(&mut self, viewport_open: bool)
        ensures
            after_mapper_sync(old(self), viewport_open, final(self)),
    {
        if !viewport_open {
            self.windows.midi_mapper = false;
        }
    }

    /// Takes over where the handbook is open; closing it is noted one frame later.
    pub fn sync_handbook(&mut self, viewport_open: bool, section: usize, page: usize)
        ensures
            after_handbook_sync(old(self), viewport_open, section, page, final(self)),
    {
        if !viewport_open {
            self.windows.handbook = false;
        } else if self.config.ui.handbook_section != section || self.config.ui.handbook_page != page
            || self.config.ui.show_handbook != self.windows.handbook {
            self.config.ui.handbook_section = section;
            self.config.ui.handbook_page = page;
            self.config.ui.show_handbook = self.windows.handbook;
            self.config_dirty = true;
        }
    }
}

/// Dragging the view one way and back ends where it began, away from the ends of the range.
pub proof fn law_pan_back(freq: u64, delta_hz: int)
    requires
        1 <= freq,
        freq + delta_hz <= u64::MAX,
        freq - delta_hz <= u64::MAX,
        freq + delta_hz >= 1,
        freq - delta_hz >= 1,
    ensures
        panned(panned(freq, delta_hz), -delta_hz) == freq,
{
}

/// No gesture tunes below 1 Hz from a frequency of 1 Hz or more.
pub proof fn law_gestures_stay_positive(freq: u64, delta_hz: int, step: u64, up: bool)
    requires
        freq >= 1,
    ensures
        panned(freq, delta_hz) >= 1,
        scrolled(freq, step, up) >= 1,
        app::nudged(freq, delta_hz) >= 1,
{
}

/// The pass band always contains the tuned frequency.
pub proof fn law_passband_contains_carrier(
    freq: u64,
    mode: DemodMode,
    nfm_bw_hz: u32,
    is_running: bool,
)
    requires
        freq + reach(mode, nfm_bw_hz).1 <= u64::MAX,
    ensures
        passband_spec(freq, mode, nfm_bw_hz, is_running).0 <= freq <= passband_spec(
            freq,
            mode,
            nfm_bw_hz,
            is_running,
        ).1,
{
}

/// A range set by hand stands: for ten seconds no frame moves it, and after that it follows the
/// signal again.
pub proof fn law_manual_range_stands(
    d: DisplayRange,
    floor: Level,
    ceil: Level,
    set_us: u64,
    now_us: u64,
    bins: usize,
    wanted_floor: Level,
    wanted_ceil: Level,
)
    requires
        set_us <= now_us,
    ensures
        ({
            let hand = set_by_hand(d, floor, ceil, set_us);
            let later = rearmed(hand, now_us);
            if now_us - set_us <= 10_000_000 {
                &&& later == hand
                &&& followed(later, bins, wanted_floor, true, wanted_ceil, true) == hand
            } else {
                &&& later == (DisplayRange { auto_armed: true, auto_ref: true, ..hand })
                &&& bins >= 10 ==> followed(
                    later,
                    bins,
                    wanted_floor,
                    true,
                    wanted_ceil,
                    true,
                ) == (DisplayRange { fft_floor: wanted_floor, fft_ceil: wanted_ceil, ..later })
            }
        }),
{
}

// ── Laws of tuning on the view ──────────────────────────────────────────────

/// Dragging the view to the right by some hertz tunes that much lower, dragging it to the left that
/// much higher, within the range of frequencies.
pub proof fn law_drag_direction(freq: u64, by_hz: nat)
    ensures
        by_hz < freq ==> panned(freq, by_hz as int) == freq - by_hz,
        by_hz >= freq && by_hz > 0 ==> panned(freq, by_hz as int) == 1,
        0 < by_hz && freq + by_hz <= u64::MAX ==> panned(freq, -(by_hz as int)) == freq + by_hz,
        0 < by_hz && freq + by_hz > u64::MAX ==> panned(freq, -(by_hz as int)) == u64::MAX,
{
}

/// Scrolling up over the view tunes one step higher and scrolling down one step lower; the one
/// undoes the other within the range of frequencies.
pub proof fn law_scroll_direction(freq: u64, step: u64)
    requires
        step < freq,
        freq + step <= u64::MAX,
    ensures
        scrolled(freq, step, true) == freq + step,
        scrolled(freq, step, false) == freq - step,
        scrolled(scrolled(freq, step, true), step, false) == freq,
        scrolled(scrolled(freq, step, false), step, true) == freq,
{
}

/// The waterfall is cleared when the frequency has moved by more than 50 kHz and by more than a
/// tenth of the sample rate, and only then.
pub proof fn law_waterfall_clears_on_a_large_move(freq: u64, painted_hz: u64, rate: u32)
    ensures
        is_stale(freq, painted_hz, rate) == ((freq > painted_hz + 50_000 || painted_hz > freq
            + 50_000) && (freq > painted_hz + rate / 10 || painted_hz > freq + rate / 10)),
        !is_stale(freq, freq, rate),
        is_stale(freq, painted_hz, rate) == is_stale(painted_hz, freq, rate),
{
}

/// The view is as wide as the zoom makes it once the sample rate is known, and as the settings say
/// before.
pub proof fn law_view_before_the_rate_is_known(rate: u32, zoomed: u64, stored: u64)
    ensures
        rate >= 2 ==> view_span_spec(rate, zoomed, stored) == zoomed,
        rate < 2 ==> view_span_spec(rate, zoomed, stored) == stored,
{
}

/// From a saturated frame on, the badge is shown in every frame of the next two seconds, and no
/// longer. It is bright only while the converter saturates, and then for 400 ms in every 800 ms.
pub proof fn law_badge_stays_two_seconds(last: Option<u64>, at_us: u64, now_us: u64)
    requires
        at_us <= now_us,
    ensures
        badge(last, true, at_us) is Some,
        last_saturated(last, true, at_us) == Some(at_us),
        last_saturated(last, false, at_us) == last,
        now_us < at_us + 2_000_000 ==> badge(Some(at_us), false, now_us) == Some(false),
        now_us >= at_us + 2_000_000 ==> badge(Some(at_us), false, now_us) is None,
        badge(None, false, now_us) is None,
        now_us < 400_000 ==> badge(last, true, now_us) == Some(true),
        now_us + 400_000 <= u64::MAX ==> badge(last, true, (now_us + 400_000) as u64) == Some(
            badge(last, true, now_us) == Some(false),
        ),
{
    assert((now_us + 400_000) / 400_000 == now_us / 400_000 + 1);
}

/// A dismissed suggestion stays away within its 500 kHz of the spectrum and comes back beyond; the
/// suggestion itself is made only while the receiver runs in another mode than the band expects.
pub proof fn law_dismissed_suggestion(
    d: DisplayRange,
    freq: u64,
    later: u64,
    expected: DemodMode,
    mode: DemodMode,
    is_running: bool,
)
    ensures
        ({
            let here = tracked_bucket(d, freq);
            let dismissed = DisplayRange { suggest_dismissed: true, ..here };
            let there = tracked_bucket(dismissed, later);
            &&& there.suggest_dismissed == (freq / 500_000 == later / 500_000)
            &&& tracked_bucket(here, freq) == here
            &&& !here.suggest_dismissed ==> !tracked_bucket(here, later).suggest_dismissed
            &&& !is_suggested(dismissed, Some(expected), mode, is_running)
            &&& !is_suggested(there, None, mode, is_running)
            &&& !is_suggested(there, Some(mode), mode, is_running)
            &&& !is_suggested(there, Some(expected), mode, false)
            &&& expected != mode && freq / 500_000 != later / 500_000 ==> is_suggested(
                there,
                Some(expected),
                mode,
                true,
            )
        }),
{
}

/// Signals from -60 dBFS on are shown in the colour of strong ones, those from -80 dBFS on in that
/// of marginal ones, weaker ones and what is no number in the colour for weak ones.
pub proof fn law_strength_thresholds(x: Level, weak: Color)
    ensures
        !x.is_nan() && level::number_of(x.bits) >= level::whole(-60) ==> strength_color_spec(
            x,
            weak,
        ) == (Color { r: 0x1E, g: 0xC8, b: 0x50, a: 255 }),
        !x.is_nan() && level::whole(-80) <= level::number_of(x.bits) < level::whole(-60)
            ==> strength_color_spec(x, weak) == (Color { r: 0xD2, g: 0xAA, b: 0, a: 255 }),
        x.is_nan() || level::number_of(x.bits) < level::whole(-80) ==> strength_color_spec(x, weak)
            == weak,
{
    lemma2_to64();
    level::lemma_whole(0xC270_0000, -60, 18);
    level::lemma_whole(0xC2A0_0000, -80, 17);
    level::law_order_is_numeric(x, level::of(0xC270_0000));
    level::law_order_is_numeric(x, level::of(0xC2A0_0000));
    level::law_order_is_numeric(level::of(0xC2A0_0000), level::of(0xC270_0000));
}

/// The most urgent hints are red, the next two priorities amber, all others muted.
pub proof fn law_urgent_hints_stand_out(priority: u8)
    ensures
        hint_color_spec(0) == (Color { r: 0xDC, g: 0x32, b: 0x32, a: 255 }),
        1 <= priority <= 2 ==> hint_color_spec(priority) == (Color {
            r: 0xF0,
            g: 0xA5,
            b: 0,
            a: 255,
        }),
        priority > 2 ==> hint_color_spec(priority) == (Color { r: 0x78, g: 0x8C, b: 0xAF, a: 255 }),
{
}

/// The range follows the signal only while it is automatic and over ten bins or more, and each bound
/// on its own.
pub proof fn law_range_follows(
    d: DisplayRange,
    bins: usize,
    floor: Level,
    floor_moves: bool,
    ceil: Level,
    ceil_moves: bool,
)
    ensures
        ({
            let n = followed(d, bins, floor, floor_moves, ceil, ceil_moves);
            let on = d.auto_ref && bins > 9;
            &&& on && floor_moves ==> n.fft_floor == floor
            &&& on && ceil_moves ==> n.fft_ceil == ceil
            &&& !on || !floor_moves ==> n.fft_floor == d.fft_floor
            &&& !on || !ceil_moves ==> n.fft_ceil == d.fft_ceil
            &&& n == (DisplayRange { fft_floor: n.fft_floor, fft_ceil: n.fft_ceil, ..d })
        }),
{
}

// ── Laws of the display ─────────────────────────────────────────────────────

/// The zoom is set, in the receiver and in the settings, to the value asked for or to the nearest
/// one between the smallest zoom and 1.
pub proof fn law_zoom_takes_effect(
    a: SdrApp,
    zoom: Level,
    min_zoom: Level,
    n: SdrApp,
    s: Station,
)
    requires
        after_zoom(&a, zoom, min_zoom, &n),
        !zoom.is_nan(),
        !min_zoom.is_nan(),
        level::number_of(min_zoom.bits) <= level::whole(1),
    ensures
        n.config.ui == (UiConfig { zoom_level: n.config.ui.zoom_level, ..a.config.ui }),
        app::received(s, &a, &n) == (Station { zoom: n.config.ui.zoom_level, ..s }),
        level::number_of(n.config.ui.zoom_level.bits) == (if level::number_of(zoom.bits)
            < level::number_of(min_zoom.bits) {
            level::number_of(min_zoom.bits)
        } else if level::number_of(zoom.bits) > level::whole(1) {
            level::whole(1)
        } else {
            level::number_of(zoom.bits)
        }),
{
    reveal(receiver::obeyed);
    lemma2_to64();
    level::lemma_whole(0x3F80_0000, 1, 23);
    level::law_order_is_numeric(zoom, min_zoom);
    level::law_order_is_numeric(level::of(0x3F80_0000), zoom);
    app::lemma_received_one(s, &a, &n, Command::SetZoom(n.config.ui.zoom_level));
}

/// A hint does what it says: it zooms out, sets the volume or the mode, switches the FM notch off,
/// or attenuates with amplifier state 9 and a level of -60.
pub proof fn law_hint_takes_effect(
    a: SdrApp,
    action: HintAction,
    wider: Level,
    min_zoom: Level,
    n: SdrApp,
    s: Station,
)
    requires
        after_hint(&a, action, wider, min_zoom, &n),
    ensures
        ({
            let r = app::received(s, &a, &n);
            match action {
                HintAction::ZoomOut => after_zoom(&a, wider, min_zoom, &n),
                HintAction::SetVolume(v) => {
                    &&& r == (Station { volume: v, ..s })
                    &&& n.config.ui == (UiConfig { volume: v, ..a.config.ui })
                },
                HintAction::SetDemodMode(mode) => {
                    &&& r == (Station { demod: DemodState { demod_mode: mode, ..s.demod }, ..s })
                    &&& n.config == a.config
                },
                HintAction::DisableFmNotch => {
                    &&& r == (Station { fm_notch: false, ..s })
                    &&& !n.config.source.fm_notch_enabled
                },
                HintAction::MaxAttenuation => {
                    &&& r == (Station { lna: 9, agc_setpoint: (-60) as i32, ..s })
                    &&& n.config.source.agc_setpoint_dbfs == -60
                    &&& n.config.source.lna_state == a.config.source.lna_state
                },
            }
        }),
{
    reveal(receiver::obeyed);
    match action {
        HintAction::ZoomOut => {},
        HintAction::SetVolume(v) => app::lemma_received_one(s, &a, &n, Command::SetVolume(v)),
        HintAction::SetDemodMode(mode) => app::lemma_received_one(
            s,
            &a,
            &n,
            Command::SetDemodMode(mode),
        ),
        HintAction::DisableFmNotch => app::lemma_received_one(
            s,
            &a,
            &n,
            Command::SetFmNotch(false),
        ),
        HintAction::MaxAttenuation => app::lemma_received_two(
            s,
            &a,
            &n,
            Command::SetLnaState(crate::device::MAX_ATTEN_LNA),
            Command::SetAgcSetpoint(crate::device::MAX_ATTEN_SETPOINT),
        ),
    }
}

/// The divider between spectrum and waterfall stays between 0.15 and 0.8 of the height, and where
/// it was dragged to within that.
pub proof fn law_divider_stays_in_reach(a: SdrApp, split: Level, n: SdrApp)
    requires
        after_split(&a, split, &n),
        !split.is_nan(),
    ensures
        ({
            let at = level::number_of(split.bits);
            let low = level::number_of(0x3E19_999A);
            let high = level::number_of(0x3F4C_CCCD);
            level::number_of(n.config.ui.spectrum_split.bits) == (if at < low {
                low
            } else if at > high {
                high
            } else {
                at
            })
        }),
        level::is_nearest(0x3E19_999A, 3, 20),
        level::is_nearest(0x3F4C_CCCD, 4, 5),
        n.config_dirty,
        n.outbox == a.outbox,
{
    lemma2_to64();
    level::law_order_is_numeric(split, level::of(0x3E19_999A));
    level::law_order_is_numeric(level::of(0x3F4C_CCCD), split);
}

/// Answering the suggestion settles it; only accepting it switches the receiver to the mode.
pub proof fn law_answer_settles_the_suggestion(
    a: SdrApp,
    expected: DemodMode,
    accepted: bool,
    n: SdrApp,
    s: Station,
    mode: DemodMode,
)
    requires
        after_answer(&a, expected, accepted, &n),
    ensures
        !is_suggested(n.display, Some(expected), mode, true),
        accepted ==> app::received(s, &a, &n) == (Station {
            demod: DemodState { demod_mode: expected, ..s.demod },
            ..s
        }),
        !accepted ==> n.outbox@ == a.outbox@,
        n.config == a.config,
{
    reveal(receiver::obeyed);
    if accepted {
        app::lemma_received_one(s, &a, &n, Command::SetDemodMode(expected));
    }
}

/// The question mark opens the overview and closes it again; what closes it, closes it whatever
/// else was pressed.
pub proof fn law_overview_toggles(a: SdrApp, b: SdrApp, c: SdrApp, question: bool)
    requires
        after_overlay(&a, question, false, &b),
        after_overlay(&a, question, true, &c),
    ensures
        question ==> b.windows.shortcuts == !a.windows.shortcuts,
        !question ==> b.windows.shortcuts == a.windows.shortcuts,
        !c.windows.shortcuts,
        b.windows.settings == a.windows.settings && b.windows.handbook == a.windows.handbook,
{
}

/// While the handbook is open the settings hold the place at which it is open; once it was closed
/// they keep the last one.
pub proof fn law_handbook_place_is_kept(
    a: SdrApp,
    open: bool,
    section: usize,
    page: usize,
    n: SdrApp,
)
    requires
        after_handbook_sync(&a, open, section, page, &n),
    ensures
        open ==> {
            &&& n.config.ui.handbook_section == section
            &&& n.config.ui.handbook_page == page
            &&& n.config.ui.show_handbook == a.windows.handbook
            &&& n.windows.handbook == a.windows.handbook
            &&& n.config_dirty == (a.config_dirty || n.config.ui.handbook_section
                != a.config.ui.handbook_section || n.config.ui.handbook_page
                != a.config.ui.handbook_page || n.config.ui.show_handbook
                != a.config.ui.show_handbook)
        },
        !open ==> !n.windows.handbook && n.config == a.config,
{
}

/// While the scanner runs the display shows the frequency that the hardware is tuned to, and no
/// command goes out; otherwise it shows what it did.
pub proof fn law_display_follows_the_scanner(a: SdrApp, shared: SharedState, n: SdrApp)
    requires
        after_scanner(&a, &shared, &n),
    ensures
        shared.scanner.scan_running && shared.center_freq_hz != 0 ==> n.config.ui.frequency_hz
            == shared.center_freq_hz,
        !shared.scanner.scan_running || shared.center_freq_hz == 0 ==> n == a,
        n.config.ui.frequency_hz != a.config.ui.frequency_hz
            ==> n.frequency_widget.frequency_hz == n.config.ui.frequency_hz,
        n.outbox == a.outbox,
        n.config_dirty == a.config_dirty,
{
}

/// The overlay covers as much of the spectrum below the tuned frequency as above it, the tuned
/// frequency in its middle, and the edges of the pass band.
pub proof fn law_overlay_is_centred(
    freq: u64,
    span: u64,
    mode: DemodMode,
    nfm_bw_hz: u32,
    is_running: bool,
    r: WaterfallOverlay,
)
    requires
        is_overlay(freq, span, mode, nfm_bw_hz, is_running, r),
        span <= freq,
        freq + span <= u64::MAX,
    ensures
        r.vfo_hz == freq,
        freq - r.freq_range.0 == span,
        r.freq_range.1 - freq == span,
        (r.filter_lo_hz, r.filter_hi_hz) == passband_spec(freq, mode, nfm_bw_hz, is_running),
{
}

/// Dismissing the overlay closes it for good: it is not shown at the next start. A closed MIDI mapper
/// window is noted, an open one stays.
pub proof fn law_overlay_is_seen_once(a: SdrApp, b: SdrApp, open: bool, c: SdrApp)
    requires
        after_dismissal(&a, &b),
        after_mapper_sync(&a, open, &c),
    ensures
        !b.windows.onboarding && b.config.ui.seen_onboarding && b.config_dirty,
        c.windows.midi_mapper == (a.windows.midi_mapper && open),
        c.windows.onboarding == a.windows.onboarding,
        b.windows.midi_mapper == a.windows.midi_mapper,
        b.outbox == a.outbox && c.outbox == a.outbox && c.config == a.config,
{
}

/// A pass band that would reach below zero ends there; otherwise its lower edge lies as far below the
/// tuned frequency as it does at any higher one.
pub proof fn law_passband_stops_at_zero(freq: u64, higher: u64, mode: DemodMode, nfm_bw_hz: u32)
    requires
        freq <= higher,
        higher + 0x1_0000_0000 <= u64::MAX,
        0x1_0000_0000 <= higher,
    ensures
        ({
            let here = passband_spec(freq, mode, nfm_bw_hz, true);
            let there = passband_spec(higher, mode, nfm_bw_hz, true);
            let below = higher - there.0;
            &&& below <= freq ==> freq - here.0 == below
            &&& below > freq ==> here.0 == 0
            &&& here.1 - freq == there.1 - higher
        }),
{
}

} // verus!
