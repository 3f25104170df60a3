//! The right panel: volume, aircraft decoder, radio data, band presets, recorder, diagnostics.

use vstd::arithmetic::power2::*;
use vstd::prelude::*;
use vstd::string::*;

use crate::app;
use crate::app::AdsbPanel;
use crate::app::BookmarkPanel;
use crate::app::SdrApp;
use crate::config::AppConfig;
use crate::config::SourceConfig;
use crate::config::UiConfig;
use crate::decimal;
use crate::level;
use crate::level::Level;
use crate::receiver;
use crate::receiver::Command;
use crate::receiver::DemodMode;
use crate::receiver::DemodState;
use crate::receiver::RecorderCommand;
use crate::receiver::SharedState;
use crate::receiver::Station;
use crate::single;
use crate::text;
use crate::theme;
use crate::theme::Color;

verus! {

/// Lowest sample rate at which aircraft frames can be decoded.
pub const ADSB_MIN_RATE: u32 = 2_000_000;

/// Frequency of the aircraft transponders.
pub const ADSB_FREQ_HZ: u64 = 1_090_000_000;

// ── Volume ──────────────────────────────────────────────────────────────────

/// 0.9
pub const VU_HIGH_BITS: u32 = 0x3F66_6666;

/// 0.6
pub const VU_MID_BITS: u32 = 0x3F19_999A;

/// -6.0
pub const REC_HIGH_BITS: u32 = 0xC0C0_0000;

/// -20.0
pub const REC_MID_BITS: u32 = 0xC1A0_0000;

/// The colour of a bar above `high`, above `mid`, or else.
pub open spec fn bar_color_spec(x: Level, high: Level, mid: Level) -> Color {
    if high.below(x) {
        theme::rgb(theme::VU_HIGH)
    } else if mid.below(x) {
        theme::rgb(theme::VU_MID)
    } else {
        theme::rgb(theme::VU_LOW)
    }
}

fn bar_color(x: Level, high: Level, mid: Level) -> (c: Color)
    ensures
        c == bar_color_spec(x, high, mid),
{
    if high.lt(x) {
        theme::rgb(theme::VU_HIGH)
    } else if mid.lt(x) {
        theme::rgb(theme::VU_MID)
    } else {
        theme::rgb(theme::VU_LOW)
    }
}

/// The colour of a volume bar.
pub open spec fn vu_bar_spec(x: Level) -> Color {
    bar_color_spec(x, level::of(VU_HIGH_BITS), level::of(VU_MID_BITS))
}

/// Colour of a volume bar: red above 0.9, yellow above 0.6.
pub fn vu_color(x: Level) -> (c: Color)
    ensures
        c == vu_bar_spec(x),
{
    bar_color(x, level::of(VU_HIGH_BITS), level::of(VU_MID_BITS))
}

/// The colour of a recording level bar.
pub open spec fn recording_bar_spec(db: Level) -> Color {
    bar_color_spec(db, level::of(REC_HIGH_BITS), level::of(REC_MID_BITS))
}

/// Colour of a recording level bar: red above -6 dBFS, yellow above -20 dBFS.
pub fn recording_bar_color(db: Level) -> (c: Color)
    ensures
        c == recording_bar_spec(db),
{
    bar_color(db, level::of(REC_HIGH_BITS), level::of(REC_MID_BITS))
}

// ── Band presets ────────────────────────────────────────────────────────────

/// A band: where it lies, how wide it is shown and how it is demodulated.
pub struct BandPreset {
    pub name: &'static str,
    pub center_hz: u64,
    pub span_hz: u64,
    pub demod_mode: DemodMode,
}

pub const BAND_PRESET_COUNT: usize = 7;

pub open spec fn preset_data(i: int) -> (Seq<char>, u64, u64, DemodMode) {
    if i == 0 {
        ("FM Broadcast"@, 97_500_000, 10_500_000, DemodMode::Wbfm)
    } else if i == 1 {
        ("Aviation VOR"@, 113_000_000, 5_000_000, DemodMode::Nfm)
    } else if i == 2 {
        ("Air Traffic"@, 127_500_000, 9_500_000, DemodMode::Nfm)
    } else if i == 3 {
        ("NOAA Weather"@, 162_400_000, 500_000, DemodMode::Nfm)
    } else if i == 4 {
        ("AIS Marine"@, 161_975_000, 500_000, DemodMode::Nfm)
    } else if i == 5 {
        ("Ham 2m"@, 146_000_000, 4_000_000, DemodMode::Nfm)
    } else {
        ("ISM 433 MHz"@, 433_920_000, 2_000_000, DemodMode::Nfm)
    }
}

pub fn band_preset(i: usize) -> (r: BandPreset)
    requires
        i < BAND_PRESET_COUNT,
    ensures
        (r.name@, r.center_hz, r.span_hz, r.demod_mode) == preset_data(i as int),
{
    match i {
        0 => BandPreset {
            name: "FM Broadcast",
            center_hz: 97_500_000,
            span_hz: 10_500_000,
            demod_mode: DemodMode::Wbfm,
        },
        1 => BandPreset {
            name: "Aviation VOR",
            center_hz: 113_000_000,
            span_hz: 5_000_000,
            demod_mode: DemodMode::Nfm,
        },
        2 => BandPreset {
            name: "Air Traffic",
            center_hz: 127_500_000,
            span_hz: 9_500_000,
            demod_mode: DemodMode::Nfm,
        },
        3 => BandPreset {
            name: "NOAA Weather",
            center_hz: 162_400_000,
            span_hz: 500_000,
            demod_mode: DemodMode::Nfm,
        },
        4 => BandPreset {
            name: "AIS Marine",
            center_hz: 161_975_000,
            span_hz: 500_000,
            demod_mode: DemodMode::Nfm,
        },
        5 => BandPreset {
            name: "Ham 2m",
            center_hz: 146_000_000,
            span_hz: 4_000_000,
            demod_mode: DemodMode::Nfm,
        },
        _ => BandPreset {
            name: "ISM 433 MHz",
            center_hz: 433_920_000,
            span_hz: 2_000_000,
            demod_mode: DemodMode::Nfm,
        },
    }
}

/// What turning the volume knob does.
pub open spec fn after_volume(a: &SdrApp, volume: Level, n: &SdrApp) -> bool {
    &&& n.queued(a, seq![Command::SetVolume(volume)])
    &&& *n == (SdrApp {
        config: AppConfig {
            ui: UiConfig { volume, ..a.config.ui },
            ..a.config
        },
        config_dirty: true,
        outbox: n.outbox,
        ..*a
    })
}

/// What choosing a band preset does.
pub open spec fn after_preset(
    a: &SdrApp,
    i: usize,
    sample_rate_sps: u32,
    ratio: Level,
    n: &SdrApp,
) -> bool {
    let p = preset_data(i as int);
    let known = sample_rate_sps / 2 > 0;
    let zoom = ratio.within(
        level::of(level::MIN_ZOOM_BITS),
        level::of(level::ONE_BITS),
    );
    &&& n.queued(
        a,
        app::tune_commands(a, p.1) + seq![Command::SetDemodMode(p.3)] + if known {
            seq![Command::SetZoom(zoom)]
        } else {
            Seq::empty()
        },
    )
    &&& n.config.ui.demod_mode@ == p.3.stored_name()
    &&& app::is_fresh_widget(n.frequency_widget, p.1)
    &&& *n == (SdrApp {
        config: AppConfig {
            ui: UiConfig {
                frequency_hz: p.1,
                span_hz: p.2,
                demod_mode: n.config.ui.demod_mode,
                zoom_level: if known {
                    zoom
                } else {
                    a.config.ui.zoom_level
                },
                ..a.config.ui
            },
            source: app::source_after_tune(a),
            ..a.config
        },
        config_dirty: true,
        outbox: n.outbox,
        frequency_widget: n.frequency_widget,
        bookmarks: BookmarkPanel { prev_antenna: None, ..a.bookmarks },
        ..*a
    })
}

/// What a frame does for a start that waits.
pub open spec fn after_deferred_start(
    a: &SdrApp,
    sample_rate_sps: u32,
    have_samples: bool,
    n: &SdrApp,
    start: bool,
) -> bool {
    let ready = a.adsb.start_pending && sample_rate_sps >= ADSB_MIN_RATE;
    let cleared = SdrApp {
        adsb: AdsbPanel { start_pending: false, ..a.adsb },
        ..*a
    };
    &&& start == (ready && have_samples)
    &&& ready ==> app::after_apply_tune(&cleared, ADSB_FREQ_HZ, n)
    &&& !ready ==> *n == *a
}

/// What starting a recording does.
pub open spec fn after_record(a: &SdrApp, shared: &SharedState, n: &SdrApp) -> bool {
    &&& n.queued(a, seq![Command::StartRecording])
    &&& n.recorder_outbox@ == a.recorder_outbox@.push(
        RecorderCommand::Start {
            freq_hz: shared.center_freq_hz,
            iq_sample_rate: shared.sample_rate_sps,
            mode: shared.recording_mode,
        },
    )
    &&& *n == (SdrApp {
        outbox: n.outbox,
        recorder_outbox: n.recorder_outbox,
        ..*a
    })
}

/// What stopping a recording does.
pub open spec fn after_record_stop(a: &SdrApp, n: &SdrApp) -> bool {
    &&& n.queued(a, seq![Command::StopRecording])
    &&& n.recorder_outbox@ == a.recorder_outbox@.push(RecorderCommand::Stop)
    &&& *n == (SdrApp {
        outbox: n.outbox,
        recorder_outbox: n.recorder_outbox,
        ..*a
    })
}

/// What arming a scheduled recording does.
pub open spec fn after_schedule(
    a: &SdrApp,
    shared: &SharedState,
    now_unix_secs: u64,
    n: &SdrApp,
) -> bool {
    &&& n.recorder_outbox@ == a.recorder_outbox@.push(
        RecorderCommand::Schedule {
            start_unix_secs: (now_unix_secs + a.sched_delay_secs) as u64,
            duration_secs: a.sched_duration_secs,
            freq_hz: shared.center_freq_hz,
            iq_sample_rate: shared.sample_rate_sps,
            mode: shared.recording_mode,
        },
    )
    &&& *n == (SdrApp {
        recorder_outbox: n.recorder_outbox,
        ..*a
    })
}

/// What restarting the device does.
pub open spec fn after_restart(a: &SdrApp, n: &SdrApp) -> bool {
    &&& n.outbox@ == a.outbox@.push(Command::RestartDevice)
    &&& *n == (SdrApp { outbox: n.outbox, ..*a })
}

impl SdrApp {
    /// The volume knob was turned.
    pub fn set_volume(&mut self, volume: Level)
        ensures
            after_volume(old(self), volume, final(self)),
    {
        self.config.ui.volume = volume;
        self.send(Command::SetVolume(volume));
        self.config_dirty = true;
    }

    /// A band preset was chosen. `ratio` is the preset's span over half the sample rate; it sets
    /// the zoom when the sample rate is known. The antenna that a bookmark chose is given up.
    pub fn apply_preset(&mut self, i: usize, sample_rate_sps: u32, ratio: Level)
        requires
            i < BAND_PRESET_COUNT,
        ensures
            after_preset(old(self), i, sample_rate_sps, ratio, final(self)),
    {
        let p: BandPreset = band_preset(i);
        self.apply_tune(p.center_hz);
        self.send(Command::SetDemodMode(p.demod_mode));
        self.config.ui.span_hz = p.span_hz;
        self.config.ui.demod_mode = text::owned(p.demod_mode.name());
        if sample_rate_sps / 2 > 0 {
            let zoom: Level = ratio.clamp(
                level::of(level::MIN_ZOOM_BITS),
                level::of(level::ONE_BITS),
            );
            self.send(Command::SetZoom(zoom));
            self.config.ui.zoom_level = zoom;
        }
    }

    // ── Aircraft decoder ────────────────────────────────────────────────────

    /// Tunes to the transponder frequency. The decoder is to be started when this returns true,
    /// which it does when samples are at hand.
    pub fn adsb_start_decoder(&mut self, have_samples: bool) -> (start: bool)
        ensures
            start == have_samples,
            app::after_apply_tune(old(self), ADSB_FREQ_HZ, final(self)),
    {
        self.apply_tune(ADSB_FREQ_HZ);
        have_samples
    }

    /// The map button: starts the decoder unless it runs or is about to, and opens the map. While
    /// the decoder runs, the button toggles the map.
    /// Below the rate that decoding needs, the device is first set to its full rate and the start
    /// waits for it. Returns whether to start the decoder now.
    pub fn adsb_map_clicked(
        &mut self,
        sample_rate_sps: u32,
        decoder_running: bool,
        have_samples: bool,
    ) -> (start: bool)
        ensures
            start == (adsb_starts_now(old(self), sample_rate_sps, decoder_running)
                && have_samples),
            after_map_click(old(self), sample_rate_sps, decoder_running, final(self)),
    {
        let start: bool = self.adsb_start_sequence(sample_rate_sps, decoder_running, have_samples);
        self.adsb.show_map = !decoder_running || !self.adsb.show_map;
        start
    }

    /// Starts the decoder, or prepares the device for it, unless it runs or is about to.
    pub fn adsb_start_sequence(
        &mut self,
        sample_rate_sps: u32,
        decoder_running: bool,
        have_samples: bool,
    ) -> (start: bool)
        ensures
            start == (adsb_starts_now(old(self), sample_rate_sps, decoder_running)
                && have_samples),
            after_start_sequence(old(self), sample_rate_sps, decoder_running, final(self)),
    {
        if decoder_running || self.adsb.start_pending {
            return false;
        }
        if sample_rate_sps < ADSB_MIN_RATE {
            self.adsb.prev_decimation = Some(self.config.source.decimation_factor);
            self.config.source.decimation_factor = 1;
            self.config_dirty = true;
            self.send(Command::SetDecimationFactor(1));
            self.adsb.start_pending = true;
            return false;
        }
        self.adsb_start_decoder(have_samples)
    }

    /// A waiting start goes ahead once the device delivers enough samples. Returns whether to
    /// start the decoder now.
    pub fn adsb_deferred_start(&mut self, sample_rate_sps: u32, have_samples: bool) -> (start: bool)
        ensures
            after_deferred_start(old(self), sample_rate_sps, have_samples, final(self), start),
    {
        if self.adsb.start_pending && sample_rate_sps >= ADSB_MIN_RATE {
            self.adsb.start_pending = false;
            return self.adsb_start_decoder(have_samples);
        }
        false
    }

    /// The decoder was stopped: a decimation factor that it changed is put back.
    pub fn adsb_stop_decoder(&mut self)
        ensures
            after_adsb_stop(old(self), final(self)),
    {
        self.adsb.start_pending = false;
        if let Some(prev) = self.adsb.prev_decimation.take() {
            if prev > 1 {
                self.config.source.decimation_factor = prev;
                self.config_dirty = true;
                self.send(Command::SetDecimationFactor(prev));
            }
        }
    }

    // ── Recorder ────────────────────────────────────────────────────────────

    /// Starts a recording of what is received now.
    pub fn start_recording(&mut self, shared: &SharedState)
        ensures
            after_record(old(self), shared, final(self)),
    {
        self.recorder_outbox.push(
            RecorderCommand::Start {
                freq_hz: shared.center_freq_hz,
                iq_sample_rate: shared.sample_rate_sps,
                mode: shared.recording_mode,
            },
        );
        self.send(Command::StartRecording);
    }

    /// Stops the recording.
    pub fn stop_recording(&mut self)
        ensures
            after_record_stop(old(self), final(self)),
    {
        self.recorder_outbox.push(RecorderCommand::Stop);
        self.send(Command::StopRecording);
    }

    /// Arms a scheduled recording, counted from `now_unix_secs`.
    pub fn arm_schedule(&mut self, shared: &SharedState, now_unix_secs: u64)
        requires
            now_unix_secs + old(self).sched_delay_secs <= u64::MAX,
        ensures
            after_schedule(old(self), shared, now_unix_secs, final(self)),
    {
        self.recorder_outbox.push(
            RecorderCommand::Schedule {
                start_unix_secs: now_unix_secs + self.sched_delay_secs as u64,
                duration_secs: self.sched_duration_secs,
                freq_hz: shared.center_freq_hz,
                iq_sample_rate: shared.sample_rate_sps,
                mode: shared.recording_mode,
            },
        );
    }

    /// The device is closed and opened again.
    pub fn restart_device(&mut self)
        ensures
            after_restart(old(self), final(self)),
    {
        self.send(Command::RestartDevice);
    }
}

/// The decoder is started at once.
pub open spec fn adsb_starts_now(a: &SdrApp, rate: u32, running: bool) -> bool {
    !running && !a.adsb.start_pending && rate >= ADSB_MIN_RATE
}

/// The device is set to its full rate first.
pub open spec fn adsb_reconfigures(a: &SdrApp, rate: u32, running: bool) -> bool {
    !running && !a.adsb.start_pending && rate < ADSB_MIN_RATE
}

/// What the start sequence does.
pub open spec fn after_start_sequence(a: &SdrApp, rate: u32, running: bool, n: &SdrApp) -> bool {
    if adsb_starts_now(a, rate, running) {
        app::after_apply_tune(a, ADSB_FREQ_HZ, n)
    } else if adsb_reconfigures(a, rate, running) {
        &&& n.queued(a, seq![Command::SetDecimationFactor(1)])
        &&& *n == (SdrApp {
            config: AppConfig {
                source: SourceConfig { decimation_factor: 1, ..a.config.source },
                ..a.config
            },
            config_dirty: true,
            outbox: n.outbox,
            adsb: AdsbPanel {
                start_pending: true,
                prev_decimation: Some(a.config.source.decimation_factor),
                ..a.adsb
            },
            ..*a
        })
    } else {
        *n == *a
    }
}

/// What the map button does: the start sequence, and the map is opened; while the decoder runs,
/// the map is toggled.
pub open spec fn after_map_click(a: &SdrApp, rate: u32, running: bool, n: &SdrApp) -> bool {
    &&& n.adsb.show_map == (!running || !a.adsb.show_map)
    &&& after_start_sequence(
        a,
        rate,
        running,
        &SdrApp { adsb: AdsbPanel { show_map: a.adsb.show_map, ..n.adsb }, ..*n },
    )
}

/// What stopping the decoder does.
pub open spec fn after_adsb_stop(a: &SdrApp, n: &SdrApp) -> bool {
    let stopped = AdsbPanel { start_pending: false, prev_decimation: None, ..a.adsb };
    match a.adsb.prev_decimation {
        Some(prev) if prev > 1 => {
            &&& n.queued(a, seq![Command::SetDecimationFactor(prev)])
            &&& *n == (SdrApp {
                config: AppConfig {
                    source: SourceConfig { decimation_factor: prev, ..a.config.source },
                    ..a.config
                },
                config_dirty: true,
                outbox: n.outbox,
                adsb: stopped,
                ..*a
            })
        },
        _ => *n == (SdrApp { adsb: stopped, ..*a }),
    }
}

/// Opening the aircraft map at a low sample rate and stopping the decoder again leaves the
/// settings of the device as they were.
pub proof fn law_adsb_restores_decimation(before: SdrApp, rate: u32, open: SdrApp, after: SdrApp)
    requires
        rate < 2_000_000,
        !before.adsb.start_pending,
        before.config.source.decimation_factor >= 1,
        after_map_click(&before, rate, false, &open),
        after_adsb_stop(&open, &after),
    ensures
        after.config == before.config,
        !after.adsb.start_pending,
        after.adsb.prev_decimation is None,
        after.adsb.show_map,
{
}

// ── Texts ───────────────────────────────────────────────────────────────────

/// The status line of the aircraft decoder.
pub open spec fn adsb_status_text(
    pending: bool,
    running: bool,
    rate: u32,
    aircraft: nat,
    frames: nat,
) -> Seq<char> {
    if pending {
        "  ⟳ Reconfiguring hardware for ADS-B…"@
    } else if running {
        if aircraft > 0 {
            "  ● LIVE  "@ + text::dec(aircraft) + " aircraft  "@ + text::dec(frames) + " frames"@
        } else {
            "  ● LIVE  listening…  "@ + text::dec(frames) + " frames"@
        }
    } else if rate < ADSB_MIN_RATE {
        "  ✈ Map will auto-configure hardware for ADS-B"@
    } else if aircraft > 0 {
        "  ○ "@ + text::dec(aircraft) + " aircraft cached"@
    } else {
        "  Press ✈ Map to tune and start"@
    }
}

/// The status line of the aircraft decoder.
pub fn adsb_status(pending: bool, running: bool, rate: u32, aircraft: u64, frames: u64) -> (r:
    String)
    ensures
        r@ == adsb_status_text(pending, running, rate, aircraft as nat, frames as nat),
{
    if pending {
        return text::owned("  ⟳ Reconfiguring hardware for ADS-B…");
    }
    if running {
        if aircraft > 0 {
            let mut s: String = text::owned("  ● LIVE  ");
            text::push_dec(&mut s, aircraft);
            s.append(" aircraft  ");
            text::push_dec(&mut s, frames);
            s.append(" frames");
            return s;
        }
        let mut s: String = text::owned("  ● LIVE  listening…  ");
        text::push_dec(&mut s, frames);
        s.append(" frames");
        return s;
    }
    if rate < ADSB_MIN_RATE {
        return text::owned("  ✈ Map will auto-configure hardware for ADS-B");
    }
    if aircraft > 0 {
        let mut s: String = text::owned("  ○ ");
        text::push_dec(&mut s, aircraft);
        s.append(" aircraft cached");
        return s;
    }
    text::owned("  Press ✈ Map to tune and start")
}

/// The warning at a sample rate, if it is too low.
pub open spec fn rate_warning_text(decoder_rate: u32) -> Option<Seq<char>> {
    if decoder_rate < ADSB_MIN_RATE {
        Some(
            "  ⚠ "@ + decimal::fixed_text(single::shown(decoder_rate as nat, 1_000, 0), 0)
                + " kHz effective — no frames possible"@,
        )
    } else {
        None
    }
}

/// The warning of a decoder that runs below the rate it needs.
pub fn adsb_rate_warning(decoder_rate: u32) -> (r: Option<String>)
    ensures
        match r {
            Some(s) => rate_warning_text(decoder_rate) == Some(s@),
            None => rate_warning_text(decoder_rate) is None,
        },
{
    if decoder_rate >= ADSB_MIN_RATE {
        return None;
    }
    let mut s: String = text::owned("  ⚠ ");
    single::push_quotient(&mut s, decoder_rate, 1_000, 0);
    s.append(" kHz effective — no frames possible");
    Some(s)
}

/// Whether `r` shows `rt` cut after `keep` bytes when it is longer than `limit` bytes.
pub open spec fn is_shortened(r: Seq<char>, rt: &str, limit: int, keep: int) -> bool {
    if rt.spec_bytes().len() > limit {
        &&& r.len() > 0
        &&& r.last() == '…'
        &&& vstd::utf8::encode_utf8(r.drop_last()) == rt.spec_bytes().subrange(0, keep)
    } else {
        r == rt@
    }
}

/// Radio text cut to fit: more than `limit` bytes are shown as the first `keep` and an ellipsis.
pub fn shorten(rt: &str, limit: usize, keep: usize) -> (r: String)
    requires
        keep <= limit,
        rt.spec_bytes().len() <= usize::MAX,
        rt.spec_bytes().len() > limit ==> vstd::utf8::is_char_boundary(
            rt.spec_bytes(),
            keep as int,
        ),
    ensures
        is_shortened(r@, rt, limit as int, keep as int),
{
    if rt.len() > limit {
        let (head, _tail): (&str, &str) = rt.split_at(keep);
        let mut s: String = text::owned(head);
        s.push('…');
        assert(s@.drop_last() =~= head@);
        s
    } else {
        text::owned(rt)
    }
}

/// The sample rate in the diagnostics.
pub open spec fn diagnostics_rate_text(rate: u32) -> Seq<char> {
    if rate >= 1_000_000 {
        decimal::fixed_text(single::shown(rate as nat, 1_000_000, 1), 1) + " MHz"@
    } else if rate > 0 {
        text::dec((rate / 1_000) as nat) + " kHz"@
    } else {
        "—"@
    }
}

pub fn diagnostics_rate(rate: u32) -> (r: String)
    ensures
        r@ == diagnostics_rate_text(rate),
{
    if rate >= 1_000_000 {
        let mut s: String = String::new();
        single::push_quotient(&mut s, rate, 1_000_000, 1);
        s.append(" MHz");
        assert(s@ =~= diagnostics_rate_text(rate));
        s
    } else if rate > 0 {
        let mut s: String = text::dec_text((rate / 1_000) as u64);
        s.append(" kHz");
        s
    } else {
        text::owned("—")
    }
}

/// A text, or what stands for a missing one.
pub open spec fn or_dash_text(s: Seq<char>, missing: Seq<char>) -> Seq<char> {
    if s.len() == 0 {
        missing
    } else {
        s
    }
}

/// A text that the device may not have reported.
pub fn or_dash(s: &str, missing: &str) -> (r: String)
    ensures
        r@ == or_dash_text(s@, missing@),
{
    if s.is_empty() {
        text::owned(missing)
    } else {
        text::owned(s)
    }
}

/// Whether the source is the built-in demonstration.
pub open spec fn is_demo_source(name: Option<String>) -> bool {
    name is Some && text::contains_text(name->0@, "Demo"@)
}

pub fn source_is_demo(name: &Option<String>) -> (r: bool)
    ensures
        r == is_demo_source(*name),
{
    match name {
        Some(n) => text::text_contains(n.as_str(), "Demo"),
        None => false,
    }
}

// ── Laws ────────────────────────────────────────────────────────────────────

/// A volume bar is red above 0.9 and yellow above 0.6, a recording bar red above -6 dBFS and yellow
/// above -20 dBFS; otherwise both are green, and so is what is no number.
pub proof fn law_bar_colours(x: Level)
    ensures
        ({
            let red = Color { r: 0xF0, g: 0x32, b: 0x32, a: 255 };
            let yellow = Color { r: 0xDC, g: 0xBE, b: 0x1E, a: 255 };
            let green = Color { r: 0x1E, g: 0xC8, b: 0x50, a: 255 };
            let at = level::number_of(x.bits);
            &&& vu_bar_spec(x) == (if x.is_nan() {
                green
            } else if at > level::number_of(0x3F66_6666) {
                red
            } else if at > level::number_of(0x3F19_999A) {
                yellow
            } else {
                green
            })
            &&& recording_bar_spec(x) == (if x.is_nan() {
                green
            } else if at > level::whole(-6) {
                red
            } else if at > level::whole(-20) {
                yellow
            } else {
                green
            })
        }),
        level::is_nearest(0x3F66_6666, 9, 10),
        level::is_nearest(0x3F19_999A, 3, 5),
{
    lemma2_to64();
    level::lemma_whole(0xC0C0_0000, -6, 21);
    level::lemma_whole(0xC1A0_0000, -20, 19);
    level::law_order_is_numeric(level::of(0x3F66_6666), x);
    level::law_order_is_numeric(level::of(0x3F19_999A), x);
    level::law_order_is_numeric(level::of(0xC0C0_0000), x);
    level::law_order_is_numeric(level::of(0xC1A0_0000), x);
}

/// A volume turned to is the volume of the receiver and the stored one.
pub proof fn law_volume_takes_effect(a: SdrApp, volume: Level, n: SdrApp, s: Station)
    requires
        after_volume(&a, volume, &n),
    ensures
        n.config.ui == (UiConfig { volume, ..a.config.ui }),
        app::received(s, &a, &n) == (Station { volume, ..s }),
        n.config_dirty,
{
    reveal(receiver::obeyed);
    app::lemma_received_one(s, &a, &n, Command::SetVolume(volume));
}

/// Lower and upper edge of each band on offer, in hertz.
pub open spec fn band_edges(i: int) -> (int, int) {
    if i == 0 {
        (87_000_000, 108_000_000)
    } else if i == 1 {
        (108_000_000, 118_000_000)
    } else if i == 2 {
        (118_000_000, 137_000_000)
    } else if i == 3 {
        (161_900_000, 162_900_000)
    } else if i == 4 {
        (161_475_000, 162_475_000)
    } else if i == 5 {
        (142_000_000, 150_000_000)
    } else {
        (431_920_000, 435_920_000)
    }
}

/// A preset shows its band from edge to edge: FM broadcast from 87 to 108 MHz, the VOR beacons on to
/// 118 MHz, air traffic on to 137 MHz, and so on. The first is wide FM, all others narrow FM.
pub proof fn law_presets_cover_their_bands(i: int)
    requires
        0 <= i < 7,
    ensures
        ({
            let (name, center, span, mode) = preset_data(i);
            &&& center - span == band_edges(i).0
            &&& center + span == band_edges(i).1
            &&& mode == (if i == 0 {
                DemodMode::Wbfm
            } else {
                DemodMode::Nfm
            })
            &&& name.len() > 0
        }),
        band_edges(0).1 == band_edges(1).0,
        band_edges(1).1 == band_edges(2).0,
{
    reveal_strlit("FM Broadcast");
    reveal_strlit("Aviation VOR");
    reveal_strlit("Air Traffic");
    reveal_strlit("NOAA Weather");
    reveal_strlit("AIS Marine");
    reveal_strlit("Ham 2m");
    reveal_strlit("ISM 433 MHz");
}

/// Choosing a preset tunes the receiver to the middle of the band in its mode; the settings and the
/// widget show the same. The zoom follows, between 0.005 and 1, once the sample rate is known, and
/// an antenna that a bookmark chose is given up.
pub proof fn law_preset_takes_effect(
    a: SdrApp,
    i: usize,
    rate: u32,
    ratio: Level,
    n: SdrApp,
    s: Station,
)
    requires
        i < 7,
        after_preset(&a, i, rate, ratio, &n),
        a.bookmarks.prev_antenna is None,
        !ratio.is_nan(),
    ensures
        ({
            let r = app::received(s, &a, &n);
            let (name, center, span, mode) = preset_data(i as int);
            let want = level::number_of(ratio.bits);
            let zoom = level::number_of(n.config.ui.zoom_level.bits);
            &&& r.freq_hz == center
            &&& r.demod == (DemodState { demod_mode: mode, ..s.demod })
            &&& n.config.ui.frequency_hz == center
            &&& n.frequency_widget.frequency_hz == center
            &&& n.config.ui.span_hz == span
            &&& n.config.ui.demod_mode@ == mode.stored_name()
            &&& rate < 2 ==> r.zoom == s.zoom && n.config.ui.zoom_level == a.config.ui.zoom_level
            &&& rate >= 2 ==> r.zoom == n.config.ui.zoom_level
            &&& rate >= 2 ==> zoom == (if want < level::number_of(0x3BA3_D70A) {
                level::number_of(0x3BA3_D70A)
            } else if want > level::whole(1) {
                level::whole(1)
            } else {
                want
            })
            &&& r.antenna == s.antenna
        }),
        level::is_nearest(0x3BA3_D70A, 1, 200),
{
    reveal(receiver::obeyed);
    lemma2_to64();
    level::lemma_whole(0x3F80_0000, 1, 23);
    level::law_order_is_numeric(ratio, level::of(0x3BA3_D70A));
    level::law_order_is_numeric(level::of(0x3F80_0000), ratio);
    let p = preset_data(i as int);
    let tune = Command::SetFrequency(p.1);
    let mode = Command::SetDemodMode(p.3);
    let zoom = Command::SetZoom(n.config.ui.zoom_level);
    receiver::lemma_short_queues(s, tune, mode, zoom);
    if rate / 2 > 0 {
        assert(n.outbox@ =~= a.outbox@ + seq![tune, mode, zoom]);
        app::lemma_received(s, &a, &n, seq![tune, mode, zoom]);
    } else {
        assert(n.outbox@ =~= a.outbox@ + seq![tune, mode]);
        app::lemma_received(s, &a, &n, seq![tune, mode]);
    }
}

/// The start sequence of the aircraft decoder: from 2 MS/s on the receiver is tuned to 1090 MHz at
/// once; below, the device is set to its full rate, the old factor is remembered and the start
/// waits. While the decoder runs or a start waits, nothing happens.
pub proof fn law_aircraft_start(a: SdrApp, rate: u32, running: bool, n: SdrApp)
    requires
        after_start_sequence(&a, rate, running, &n),
    ensures
        running || a.adsb.start_pending ==> n == a,
        !running && !a.adsb.start_pending && rate >= 2_000_000 ==> n.config.ui.frequency_hz
            == 1_090_000_000 && n.outbox@.last() == Command::SetFrequency(1_090_000_000)
            && !n.adsb.start_pending && n.config.source.decimation_factor
            == a.config.source.decimation_factor,
        !running && !a.adsb.start_pending && rate < 2_000_000 ==> {
            &&& n.outbox@ == a.outbox@.push(Command::SetDecimationFactor(1))
            &&& n.config.source.decimation_factor == 1
            &&& n.adsb.start_pending
            &&& n.adsb.prev_decimation == Some(a.config.source.decimation_factor)
            &&& n.config.ui.frequency_hz == a.config.ui.frequency_hz
        },
        adsb_starts_now(&a, rate, running) == (!running && !a.adsb.start_pending && rate
            >= 2_000_000),
{
}

/// The map button opens the map when the decoder does not run; while it runs it opens a closed map
/// and closes an open one.
pub proof fn law_map_button(a: SdrApp, rate: u32, running: bool, n: SdrApp)
    requires
        after_map_click(&a, rate, running, &n),
    ensures
        !running ==> n.adsb.show_map,
        running ==> n.adsb.show_map == !a.adsb.show_map,
        running ==> n.config == a.config && n.outbox == a.outbox,
{
}

/// A start that waits goes ahead in the first frame at 2 MS/s or more: the receiver is tuned to
/// 1090 MHz and nothing waits any longer. Whether the decoder is started then is a matter of
/// samples at hand.
pub proof fn law_waiting_start(a: SdrApp, rate: u32, samples: bool, n: SdrApp, start: bool)
    requires
        after_deferred_start(&a, rate, samples, &n, start),
    ensures
        a.adsb.start_pending && rate >= 2_000_000 ==> {
            &&& !n.adsb.start_pending
            &&& n.config.ui.frequency_hz == 1_090_000_000
            &&& n.outbox@.last() == Command::SetFrequency(1_090_000_000)
            &&& start == samples
        },
        !a.adsb.start_pending || rate < 2_000_000 ==> n == a && !start,
{
}

/// Stopping the decoder puts a decimation factor above 1 that it replaced back, in the device and in
/// the settings, and ends a start that waits.
pub proof fn law_aircraft_stop(a: SdrApp, n: SdrApp, s: Station)
    requires
        after_adsb_stop(&a, &n),
    ensures
        !n.adsb.start_pending,
        n.adsb.prev_decimation is None,
        n.adsb.show_map == a.adsb.show_map,
        a.adsb.prev_decimation is Some && a.adsb.prev_decimation->0 >= 2 ==> {
            &&& n.config.source.decimation_factor == a.adsb.prev_decimation->0
            &&& app::received(s, &a, &n) == (Station {
                decimation: a.adsb.prev_decimation->0,
                ..s
            })
        },
        a.adsb.prev_decimation is None || a.adsb.prev_decimation->0 < 2 ==> n.config == a.config
            && n.outbox == a.outbox,
{
    reveal(receiver::obeyed);
    match a.adsb.prev_decimation {
        Some(prev) if prev > 1 => app::lemma_received_one(
            s,
            &a,
            &n,
            Command::SetDecimationFactor(prev),
        ),
        _ => {},
    }
}

/// Starting a recording makes the receiver record and tells the recorder what is received; stopping
/// it ends both. Nothing of the settings changes.
pub proof fn law_recording(a: SdrApp, shared: SharedState, b: SdrApp, c: SdrApp, s: Station)
    requires
        after_record(&a, &shared, &b),
        after_record_stop(&a, &c),
    ensures
        app::received(s, &a, &b) == (Station { recording: true, ..s }),
        app::received(s, &a, &c) == (Station { recording: false, ..s }),
        b.recorder_outbox@.len() == a.recorder_outbox@.len() + 1,
        b.recorder_outbox@.last() matches RecorderCommand::Start { freq_hz, iq_sample_rate, mode }
            && freq_hz == shared.center_freq_hz && iq_sample_rate == shared.sample_rate_sps && mode
            == shared.recording_mode,
        c.recorder_outbox@.len() == a.recorder_outbox@.len() + 1,
        c.recorder_outbox@.last() == RecorderCommand::Stop,
        b.config == a.config && c.config == a.config,
{
    reveal(receiver::obeyed);
    app::lemma_received_one(s, &a, &b, Command::StartRecording);
    app::lemma_received_one(s, &a, &c, Command::StopRecording);
}

/// A scheduled recording starts the chosen delay from now, for the chosen time, of what is received
/// now; the receiver itself is sent nothing.
pub proof fn law_schedule(a: SdrApp, shared: SharedState, now: u64, n: SdrApp)
    requires
        now + a.sched_delay_secs <= u64::MAX,
        after_schedule(&a, &shared, now, &n),
    ensures
        n.outbox == a.outbox,
        n.recorder_outbox@.len() == a.recorder_outbox@.len() + 1,
        n.recorder_outbox@.last() matches RecorderCommand::Schedule {
            start_unix_secs,
            duration_secs,
            freq_hz,
            iq_sample_rate,
            mode,
        } && start_unix_secs - now == a.sched_delay_secs && duration_secs == a.sched_duration_secs
            && freq_hz == shared.center_freq_hz && iq_sample_rate == shared.sample_rate_sps && mode
            == shared.recording_mode,
{
}

/// The status line counts: a running decoder shows how many frames it has and how many aircraft, if
/// any; a stopped one shows the aircraft it still knows. Below 2 MS/s it says that the device will
/// be set up, and while that is under way it says so before all else. The warning of a running
/// decoder comes below 2 MS/s and only there.
pub proof fn law_aircraft_status(running: bool, rate: u32, aircraft: nat, frames: nat)
    ensures
        adsb_status_text(true, running, rate, aircraft, frames)
            == "  ⟳ Reconfiguring hardware for ADS-B…"@,
        aircraft > 0 ==> adsb_status_text(false, true, rate, aircraft, frames)
            == "  ● LIVE  "@ + text::dec(aircraft) + " aircraft  "@ + text::dec(frames)
            + " frames"@,
        aircraft == 0 ==> adsb_status_text(false, true, rate, aircraft, frames)
            == "  ● LIVE  listening…  "@ + text::dec(frames) + " frames"@,
        rate < 2_000_000 ==> adsb_status_text(false, false, rate, aircraft, frames)
            == "  ✈ Map will auto-configure hardware for ADS-B"@,
        rate >= 2_000_000 && aircraft > 0 ==> adsb_status_text(false, false, rate, aircraft, frames)
            == "  ○ "@ + text::dec(aircraft) + " aircraft cached"@,
        rate >= 2_000_000 && aircraft == 0 ==> adsb_status_text(
            false,
            false,
            rate,
            aircraft,
            frames,
        ) == "  Press ✈ Map to tune and start"@,
        rate_warning_text(rate) is Some <==> rate < 2_000_000,
{
}

/// The diagnostics show a rate below 1 MHz in whole kilohertz, rounded down, a rate from there on in
/// megahertz, and a dash for none.
pub proof fn law_diagnostics_rate(rate: u32)
    ensures
        rate == 0 ==> diagnostics_rate_text(rate) == "—"@,
        0 < rate < 1_000_000 ==> diagnostics_rate_text(rate) == text::dec((rate / 1_000) as nat)
            + " kHz"@,
        rate >= 1_000_000 ==> text::ends_with(diagnostics_rate_text(rate), " MHz"@),
{
    reveal_strlit(" MHz");
    let s = diagnostics_rate_text(rate);
    if rate >= 1_000_000 {
        assert(s.skip(s.len() - 4) =~= " MHz"@);
    }
}

/// A source is the demonstration when its name holds the word, wherever in it.
pub proof fn law_demo_source(before: Seq<char>, after: Seq<char>, name: String)
    requires
        name@ == before + "Demo"@ + after,
    ensures
        is_demo_source(Some(name)),
        !is_demo_source(None),
{
    let i = before.len() as int;
    assert(name@.subrange(i, i + "Demo"@.len()) =~= "Demo"@);
}

/// Radio text that fits is shown whole. Longer text is shown as its first bytes and an ellipsis, so
/// that what is left of plain ASCII text is exactly the characters that are kept.
pub proof fn law_shortened_text(r: Seq<char>, rt: &str, limit: int, keep: int)
    requires
        is_shortened(r, rt, limit, keep),
        0 <= keep <= limit,
    ensures
        rt.spec_bytes().len() <= limit ==> r == rt@,
        rt.spec_bytes().len() > limit ==> r.len() > 0 && r.last() == '…'
            && vstd::utf8::encode_utf8(r.drop_last()).len() == keep,
{
}

/// What the device reported is shown as it is, and a stand-in only where it reported nothing; a
/// restart is one command.
pub proof fn law_reports_and_restart(s: Seq<char>, missing: Seq<char>, a: SdrApp, n: SdrApp)
    requires
        after_restart(&a, &n),
    ensures
        s.len() > 0 ==> or_dash_text(s, missing) == s,
        s.len() == 0 ==> or_dash_text(s, missing) == missing,
        n.outbox@ == a.outbox@.push(Command::RestartDevice),
        n.config == a.config,
{
}

} // verus!
