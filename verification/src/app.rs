//! State of the front end and the actions every panel shares.
//!
//! The application owns the settings, the tuner widget and the waterfall. Commands to the signal
//! path and to the recorder are queued and sent by the surrounding program in the order in which
//! they were queued.

use vstd::arithmetic::power2::*;
use vstd::prelude::*;
use vstd::std_specs::hash::*;
use vstd::string::*;

use crate::bindings;
use crate::config::AppConfig;
use crate::config::SourceConfig;
use crate::config::UiConfig;
use crate::frequency::FrequencyWidget;
use crate::level;
use crate::level::Level;
use crate::receiver;
use crate::receiver::Command;
use crate::receiver::DemodMode;
use crate::receiver::RecorderCommand;
use crate::receiver::SharedState;
use crate::receiver::Station;
use crate::text;
use crate::tuning;

verus! {

broadcast use group_hash_axioms;

/// Text of the bookmark being edited.
pub struct BookmarkEdit {
    pub name: String,
    pub freq: String,
    pub mode: DemodMode,
    pub category: String,
    pub nfm_bandwidth_hz: u32,
    pub squelch_dbfs: Level,
    pub ctcss: bool,
    pub antenna: Option<String>,
}

/// State of the bookmark list and its manager.
pub struct BookmarkPanel {
    /// Index of the bookmark being edited.
    pub edit_idx: Option<usize>,
    pub edit: BookmarkEdit,
    /// Antenna port that was in use before the last bookmark with an antenna was recalled.
    pub prev_antenna: Option<String>,
    /// Category shown; empty for all.
    pub cat_filter: String,
    pub sort_by_freq: bool,
    pub show_manager: bool,
}

/// State of the scanner controls.
pub struct ScanPanel {
    pub dwell: Level,
    /// Category scanned; empty for all.
    pub category: String,
    pub range_lo_hz: u64,
    pub range_hi_hz: u64,
    pub range_step_hz: u64,
    pub range_squelch: Level,
    pub range_dwell: Level,
    pub range_stereo_only: bool,
}

/// State of the aircraft decoder controls.
#[derive(Clone, Copy)]
pub struct AdsbPanel {
    pub show_map: bool,
    /// The decoder starts once the device delivers enough samples.
    pub start_pending: bool,
    /// Decimation factor to go back to when the decoder stops.
    pub prev_decimation: Option<u32>,
}

/// State of the display range.
#[derive(Clone, Copy)]
pub struct DisplayRange {
    pub fft_floor: Level,
    pub fft_ceil: Level,
    /// Floor and ceiling follow the signal.
    pub auto_ref: bool,
    /// Cleared by a manual change; set again after ten quiet seconds.
    pub auto_armed: bool,
    /// Time of the last manual change, in microseconds.
    pub last_manual_us: u64,
    /// Time of the last frame with a saturated converter, in microseconds.
    pub last_clipping_us: Option<u64>,
    /// Centre frequency that the waterfall history belongs to.
    pub waterfall_freq: u64,
    /// Bucket of 500 kHz in which the frequency lies.
    pub freq_bucket: u64,
    /// The suggestion to switch the demodulator was dismissed for this bucket.
    pub suggest_dismissed: bool,
}

/// Open windows and overlays.
#[derive(Clone, Copy)]
pub struct Windows {
    pub settings: bool,
    pub midi_mapper: bool,
    pub handbook: bool,
    pub onboarding: bool,
    /// Overview of keys and gestures.
    pub shortcuts: bool,
}

pub struct SdrApp {
    pub config: AppConfig,
    /// The settings changed since they were saved.
    pub config_dirty: bool,
    /// Commands for the signal path, oldest first.
    pub outbox: Vec<Command>,
    /// Commands for the recorder, oldest first.
    pub recorder_outbox: Vec<RecorderCommand>,
    pub frequency_widget: FrequencyWidget,
    pub bookmarks: BookmarkPanel,
    pub scan: ScanPanel,
    pub adsb: AdsbPanel,
    pub display: DisplayRange,
    pub windows: Windows,
    /// Seconds until a scheduled recording.
    pub sched_delay_secs: u32,
    /// Length of a scheduled recording in seconds.
    pub sched_duration_secs: u32,
    /// The receiver is started on the first frame.
    pub auto_start_pending: bool,
    /// The volume was handed to the signal path.
    pub volume_synced: bool,
}

/// Keys pressed in a frame.
#[derive(Clone, Copy)]
pub struct KeyInput {
    pub f1: bool,
    pub question: bool,
    pub escape: bool,
    /// Ctrl and comma.
    pub settings: bool,
    pub up: bool,
    pub down: bool,
    pub left: bool,
    pub right: bool,
}

/// A fresh widget on `hz`.
pub open spec fn is_fresh_widget(w: FrequencyWidget, hz: u64) -> bool {
    &&& w.frequency_hz == hz
    &&& w.step_hz == 10_000
    &&& w.clamped_ticks == 0
    &&& w.active_digit is None
    &&& !w.has_keyboard_focus
    &&& !w.editing
    &&& w.edit_text@ == Seq::<char>::empty()
}

/// Number of an antenna port.
pub open spec fn port_number(antenna: Seq<char>) -> u8 {
    if antenna == "B"@ {
        1
    } else if antenna == "C"@ {
        2
    } else {
        0
    }
}

pub fn antenna_port(antenna: &str) -> (r: u8)
    ensures
        r == port_number(antenna@),
{
    if text::same_text(antenna, "B") {
        1
    } else if text::same_text(antenna, "C") {
        2
    } else {
        0
    }
}

/// `hz` moved by a step, stopped at the ends of the range; a step down stays at 1 Hz or above.
pub open spec fn nudged(hz: u64, delta: int) -> u64 {
    if delta >= 0 {
        if hz + delta > u64::MAX {
            u64::MAX
        } else {
            (hz + delta) as u64
        }
    } else if hz + delta < 1 {
        1
    } else {
        (hz + delta) as u64
    }
}

pub fn nudge(hz: u64, delta: i64) -> (r: u64)
    requires
        delta > i64::MIN,
    ensures
        r == nudged(hz, delta as int),
{
    if delta >= 0 {
        hz.saturating_add(delta as u64)
    } else {
        let r: u64 = hz.saturating_sub((-delta) as u64);
        if r < 1 {
            1
        } else {
            r
        }
    }
}

/// The step that the arrow keys ask for: Up first, then Down, then Right; Left otherwise.
pub open spec fn arrow_delta(keys: KeyInput, step: u64) -> int {
    if keys.up {
        tuning::as_signed(step)
    } else if keys.down {
        -tuning::as_signed(step)
    } else if keys.right {
        tuning::as_signed((step * 10) as u64)
    } else {
        -tuning::as_signed((step * 10) as u64)
    }
}

pub open spec fn any_arrow(keys: KeyInput) -> bool {
    keys.up || keys.down || keys.left || keys.right
}

/// A step size that the arrow keys can apply tenfold.
pub open spec fn is_key_step(step: u64) -> bool {
    &&& step * 10 <= u64::MAX
    &&& tuning::as_signed(step) > i64::MIN
    &&& tuning::as_signed((step * 10) as u64) > i64::MIN
}

/// What the keyboard shortcuts of the main window do.
pub open spec fn after_keys(
    a: &SdrApp,
    shared: &SharedState,
    keys: KeyInput,
    n: &SdrApp,
    shared_after: &SharedState,
) -> bool {
    &&& *shared_after == (SharedState {
        help_panel_open: shared.help_panel_open != keys.question,
        midi_map_pending: if keys.escape {
            None
        } else {
            shared.midi_map_pending
        },
        ..*shared
    })
    &&& ({
        let hz = nudged(
            a.config.ui.frequency_hz,
            arrow_delta(keys, shared.demod.tune_step_hz),
        );
        let handbook = a.windows.handbook != keys.f1;
        &&& *n == (SdrApp {
            config: AppConfig {
                ui: UiConfig {
                    show_handbook: if keys.f1 {
                        handbook
                    } else {
                        a.config.ui.show_handbook
                    },
                    frequency_hz: if any_arrow(keys) {
                        hz
                    } else {
                        a.config.ui.frequency_hz
                    },
                    ..a.config.ui
                },
                source: if any_arrow(keys) {
                    source_after_tune(a)
                } else {
                    a.config.source
                },
                ..a.config
            },
            config_dirty: a.config_dirty || keys.f1 || any_arrow(keys),
            outbox: n.outbox,
            frequency_widget: n.frequency_widget,
            bookmarks: BookmarkPanel {
                prev_antenna: if any_arrow(keys) {
                    None
                } else {
                    a.bookmarks.prev_antenna
                },
                ..a.bookmarks
            },
            windows: Windows {
                handbook,
                settings: a.windows.settings != keys.settings,
                ..a.windows
            },
            ..*a
        })
        &&& if any_arrow(keys) {
            &&& is_fresh_widget(n.frequency_widget, hz)
            &&& n.queued(a, tune_commands(a, hz))
        } else {
            &&& n.frequency_widget == a.frequency_widget
            &&& n.outbox == a.outbox
        }
    })
}

/// `r` is the application as it starts with these settings.
pub open spec fn is_initial(r: SdrApp, config: AppConfig, auto_start: bool) -> bool {
    &&& r.config == config
    &&& is_fresh_widget(r.frequency_widget, config.ui.frequency_hz)
    &&& !r.config_dirty
    &&& r.outbox@ == Seq::<Command>::empty()
    &&& r.recorder_outbox@ == Seq::<RecorderCommand>::empty()
    &&& r.auto_start_pending == auto_start
    &&& !r.volume_synced
    &&& r.sched_delay_secs == 0
    &&& r.sched_duration_secs == 60
    &&& r.bookmarks.edit_idx is None
    &&& r.bookmarks.prev_antenna is None
    &&& r.bookmarks.cat_filter@ == Seq::<char>::empty()
    &&& !r.bookmarks.sort_by_freq
    &&& !r.bookmarks.show_manager
    &&& r.bookmarks.edit.name@ == Seq::<char>::empty()
    &&& r.bookmarks.edit.freq@ == Seq::<char>::empty()
    &&& r.bookmarks.edit.category@ == Seq::<char>::empty()
    &&& r.bookmarks.edit.antenna is None
    &&& r.bookmarks.edit.mode == DemodMode::Wbfm
    &&& r.bookmarks.edit.nfm_bandwidth_hz == 12_500
    &&& r.bookmarks.edit.squelch_dbfs == level::of(level::DEFAULT_SQUELCH_BITS)
    &&& !r.bookmarks.edit.ctcss
    &&& r.scan.category@ == Seq::<char>::empty()
    &&& r.scan.range_lo_hz == 87_500_000
    &&& r.scan.range_hi_hz == 108_000_000
    &&& r.scan.range_step_hz == 100_000
    &&& !r.scan.range_stereo_only
    &&& r.scan.dwell == level::of(SCAN_DWELL_BITS)
    &&& r.scan.range_squelch == level::of(RANGE_SQUELCH_BITS)
    &&& r.scan.range_dwell == level::of(RANGE_DWELL_BITS)
    &&& r.adsb == (AdsbPanel {
        show_map: config.ui.adsb_map.show,
        start_pending: false,
        prev_decimation: None,
    })
    &&& r.display == (DisplayRange {
        fft_floor: config.ui.fft_floor,
        fft_ceil: config.ui.fft_ceil,
        auto_ref: true,
        auto_armed: true,
        last_manual_us: 0,
        last_clipping_us: None,
        waterfall_freq: config.ui.frequency_hz,
        freq_bucket: 0,
        suggest_dismissed: false,
    })
    &&& r.windows == (Windows {
        settings: false,
        midi_mapper: false,
        handbook: config.ui.show_handbook,
        onboarding: !config.ui.seen_onboarding,
        shortcuts: false,
    })
}

/// What closing the program does.
pub open spec fn after_exit(a: &SdrApp, n: &SdrApp) -> bool {
    &&& n.outbox@ == a.outbox@.push(Command::Stop)
    &&& *n == (SdrApp { outbox: n.outbox, ..*a })
}

/// What the start of a frame does.
pub open spec fn after_begin_frame(
    a: &SdrApp,
    shared: &SharedState,
    n: &SdrApp,
    save: bool,
) -> bool {
    &&& *n == (SdrApp {
        config: AppConfig {
            ui: UiConfig {
                volume: synced_volume(a),
                ..a.config.ui
            },
            midi_learn: n.config.midi_learn,
            ..a.config
        },
        config_dirty: false,
        outbox: n.outbox,
        auto_start_pending: false,
        volume_synced: true,
        ..*a
    })
    &&& n.outbox@ == a.outbox@ + start_commands(a)
    &&& save == (a.config_dirty || volume_is_lost(a)
        || !bindings::inverts(shared.midi_cc_to_knob@, a.config.midi_learn@))
    &&& bindings::inverts(shared.midi_cc_to_knob@, n.config.midi_learn@)
    &&& !save ==> n.config.midi_learn == a.config.midi_learn
}

impl SdrApp {
    /// `self` is `before` with the commands `sent` queued after those of `before`.
    pub open spec fn queued(&self, before: &SdrApp, sent: Seq<Command>) -> bool {
        self.outbox@ =~= before.outbox@ + sent
    }

    pub fn new(config: AppConfig, auto_start: bool) -> (r: SdrApp)
        ensures
            is_initial(r, config, auto_start),
    {
        let hz: u64 = config.ui.frequency_hz;
        let adsb: AdsbPanel = AdsbPanel {
            show_map: config.ui.adsb_map.show,
            start_pending: false,
            prev_decimation: None,
        };
        let display: DisplayRange = DisplayRange {
            fft_floor: config.ui.fft_floor,
            fft_ceil: config.ui.fft_ceil,
            auto_ref: true,
            auto_armed: true,
            last_manual_us: 0,
            last_clipping_us: None,
            waterfall_freq: hz,
            freq_bucket: 0,
            suggest_dismissed: false,
        };
        let windows: Windows = Windows {
            settings: false,
            midi_mapper: false,
            handbook: config.ui.show_handbook,
            onboarding: !config.ui.seen_onboarding,
            shortcuts: false,
        };
        SdrApp {
            config,
            config_dirty: false,
            outbox: Vec::new(),
            recorder_outbox: Vec::new(),
            frequency_widget: FrequencyWidget::new(hz),
            bookmarks: BookmarkPanel {
                edit_idx: None,
                edit: BookmarkEdit {
                    name: String::new(),
                    freq: String::new(),
                    mode: DemodMode::Wbfm,
                    category: String::new(),
                    nfm_bandwidth_hz: 12_500,
                    squelch_dbfs: level::of(level::DEFAULT_SQUELCH_BITS),
                    ctcss: false,
                    antenna: None,
                },
                prev_antenna: None,
                cat_filter: String::new(),
                sort_by_freq: false,
                show_manager: false,
            },
            scan: ScanPanel {
                dwell: level::of(SCAN_DWELL_BITS),
                category: String::new(),
                range_lo_hz: 87_500_000,
                range_hi_hz: 108_000_000,
                range_step_hz: 100_000,
                range_squelch: level::of(RANGE_SQUELCH_BITS),
                range_dwell: level::of(RANGE_DWELL_BITS),
                range_stereo_only: false,
            },
            adsb,
            display,
            windows,
            sched_delay_secs: 0,
            sched_duration_secs: 60,
            auto_start_pending: auto_start,
            volume_synced: false,
        }
    }

    /// Queues a command for the signal path.
    pub fn send(&mut self, cmd: Command)
        ensures
            final(self).outbox@ == old(self).outbox@.push(cmd),
            *final(self) == (SdrApp { outbox: final(self).outbox, ..*old(self) }),
    {
        self.outbox.push(cmd);
    }

    /// Goes back to the antenna port in use before a bookmark chose another one.
    pub fn restore_bookmark_antenna(&mut self)
        ensures
            match old(self).bookmarks.prev_antenna {
                Some(prev) => {
                    &&& final(self).queued(
                        old(self),
                        seq![Command::SetAntenna(port_number(prev@))],
                    )
                    &&& *final(self) == (SdrApp {
                        config: AppConfig {
                            source: SourceConfig { antenna: prev, ..old(self).config.source },
                            ..old(self).config
                        },
                        config_dirty: true,
                        outbox: final(self).outbox,
                        bookmarks: BookmarkPanel {
                            prev_antenna: None,
                            ..old(self).bookmarks
                        },
                        ..*old(self)
                    })
                },
                None => *final(self) == *old(self),
            },
    {
        if let Some(prev) = self.bookmarks.prev_antenna.take() {
            let port: u8 = antenna_port(prev.as_str());
            self.config.source.antenna = prev;
            self.config_dirty = true;
            self.send(Command::SetAntenna(port));
            assert(self.outbox@ =~= old(self).outbox@ + seq![Command::SetAntenna(port)]);
        }
    }

    /// Tunes to `freq` by hand; the antenna that a bookmark chose is given up first.
    pub fn apply_tune(&mut self, freq: u64)
        ensures
            after_apply_tune(old(self), freq, final(self)),
    {
        self.restore_bookmark_antenna();
        self.send(Command::SetFrequency(freq));
        self.config.ui.frequency_hz = freq;
        self.frequency_widget = FrequencyWidget::new(freq);
        self.config_dirty = true;
    }

    /// Stores the MIDI bindings in use when they differ from the stored ones, or when the settings
    /// are to be saved anyway. Returns whether they are.
    fn store_bindings(&mut self, shared: &SharedState) -> (save: bool)
        ensures
            save == (old(self).config_dirty || !bindings::inverts(
                shared.midi_cc_to_knob@,
                old(self).config.midi_learn@,
            )),
            bindings::inverts(shared.midi_cc_to_knob@, final(self).config.midi_learn@),
            !save ==> final(self).config.midi_learn == old(self).config.midi_learn,
            *final(self) == (SdrApp {
                config: AppConfig {
                    midi_learn: final(self).config.midi_learn,
                    ..old(self).config
                },
                config_dirty: false,
                ..*old(self)
            }),
    {
        let same: bool = bindings::is_inverse(&shared.midi_cc_to_knob, &self.config.midi_learn);
        let save: bool = self.config_dirty || !same;
        if save {
            self.config.midi_learn = bindings::invert(&shared.midi_cc_to_knob);
            self.config_dirty = false;
        }
        save
    }

    /// Start of a frame. Starts the receiver when asked for on the command line, hands over the
    /// volume once, takes over learned MIDI bindings: afterwards the stored ones are those in use.
    /// Returns whether the settings are to be saved now.
    pub fn begin_frame(&mut self, shared: &SharedState) -> (save: bool)
        ensures
            after_begin_frame(old(self), shared, final(self), save),
    {
        if self.auto_start_pending {
            self.send(Command::Start);
            let saved: DemodMode = receiver::parse_config_demod_mode(
                self.config.ui.demod_mode.as_str(),
            );
            self.send(Command::SetDemodMode(saved));
            self.auto_start_pending = false;
        }
        if !self.volume_synced {
            if self.config.ui.volume.lt(level::of(level::SILENT_VOLUME_BITS)) {
                self.config.ui.volume = level::of(level::DEFAULT_VOLUME_BITS);
                self.config_dirty = true;
            }
            self.send(Command::SetVolume(self.config.ui.volume));
            self.volume_synced = true;
        }
        assert(self.outbox@ =~= old(self).outbox@ + start_commands(old(self)));
        self.store_bindings(shared)
    }

    /// F1 toggles the handbook, Ctrl and comma the settings.
    fn toggle_windows(&mut self, keys: KeyInput)
        ensures
            ({
                let handbook = old(self).windows.handbook != keys.f1;
                *final(self) == (SdrApp {
                    config: AppConfig {
                        ui: UiConfig {
                            show_handbook: if keys.f1 {
                                handbook
                            } else {
                                old(self).config.ui.show_handbook
                            },
                            ..old(self).config.ui
                        },
                        ..old(self).config
                    },
                    config_dirty: old(self).config_dirty || keys.f1,
                    windows: Windows {
                        handbook,
                        settings: old(self).windows.settings != keys.settings,
                        ..old(self).windows
                    },
                    ..*old(self)
                })
            }),
    {
        if keys.f1 {
            self.windows.handbook = !self.windows.handbook;
            self.config.ui.show_handbook = self.windows.handbook;
            self.config_dirty = true;
        }
        if keys.settings {
            self.windows.settings = !self.windows.settings;
        }
    }

    /// The arrow keys tune by one step (Up, Down) or by ten (Right, Left), as tuning by hand does.
    pub fn tune_by_arrows(&mut self, step: u64, keys: KeyInput)
        requires
            is_key_step(step),
            any_arrow(keys),
        ensures
            after_apply_tune(
                old(self),
                nudged(old(self).config.ui.frequency_hz, arrow_delta(keys, step)),
                final(self),
            ),
            after_arrows(old(self), step, keys, final(self)),
    {
        let coarse: u64 = step * 10;
        let delta: i64 = if keys.up {
            tuning::to_signed(step)
        } else if keys.down {
            -tuning::to_signed(step)
        } else if keys.right {
            tuning::to_signed(coarse)
        } else {
            -tuning::to_signed(coarse)
        };
        let hz: u64 = nudge(self.config.ui.frequency_hz, delta);
        self.apply_tune(hz);
    }

    /// The keyboard shortcuts of the main window.
    #[verifier::rlimit(40)]
    pub fn handle_keys(&mut self, shared: &mut SharedState, keys: KeyInput)
        requires
            is_key_step(old(shared).demod.tune_step_hz),
        ensures
            after_keys(old(self), old(shared), keys, final(self), final(shared)),
    {
        self.toggle_windows(keys);
        if keys.question {
            shared.help_panel_open = !shared.help_panel_open;
        }
        if keys.escape {
            shared.midi_map_pending = None;
        }
        if keys.up || keys.down || keys.left || keys.right {
            self.tune_by_arrows(shared.demod.tune_step_hz, keys);
        }
    }

    /// The program is closing: the receiver is stopped.
    pub fn on_exit(&mut self)
        ensures
            after_exit(old(self), final(self)),
    {
        self.send(Command::Stop);
    }
}

/// The device settings after tuning by hand: the antenna in use before a bookmark chose another
/// one is back.
pub open spec fn source_after_tune(a: &SdrApp) -> SourceConfig {
    match a.bookmarks.prev_antenna {
        Some(prev) => SourceConfig { antenna: prev, ..a.config.source },
        None => a.config.source,
    }
}

/// The commands that tuning to `freq` by hand sends.
pub open spec fn tune_commands(a: &SdrApp, freq: u64) -> Seq<Command> {
    match a.bookmarks.prev_antenna {
        Some(prev) => seq![Command::SetAntenna(port_number(prev@)), Command::SetFrequency(freq)],
        None => seq![Command::SetFrequency(freq)],
    }
}

/// What tuning by hand does: the antenna that a bookmark chose is given up, and the command, the
/// settings and the widget agree on the frequency.
pub open spec fn after_apply_tune(a: &SdrApp, freq: u64, n: &SdrApp) -> bool {
    &&& is_fresh_widget(n.frequency_widget, freq)
    &&& n.queued(a, tune_commands(a, freq))
    &&& *n == (SdrApp {
        config: AppConfig {
            ui: UiConfig { frequency_hz: freq, ..a.config.ui },
            source: source_after_tune(a),
            ..a.config
        },
        config_dirty: true,
        outbox: n.outbox,
        frequency_widget: n.frequency_widget,
        bookmarks: BookmarkPanel { prev_antenna: None, ..a.bookmarks },
        ..*a
    })
}

/// What the arrow keys do.
pub open spec fn after_arrows(a: &SdrApp, step: u64, keys: KeyInput, n: &SdrApp) -> bool {
    after_apply_tune(a, nudged(a.config.ui.frequency_hz, arrow_delta(keys, step)), n)
}

/// 2.0
pub const SCAN_DWELL_BITS: u32 = 0x4000_0000;

/// -60.0
pub const RANGE_SQUELCH_BITS: u32 = 0xC270_0000;

/// 0.3
pub const RANGE_DWELL_BITS: u32 = 0x3E99_999A;

/// The stored volume is so low that it counts as lost; it is looked at once.
pub open spec fn volume_is_lost(a: &SdrApp) -> bool {
    !a.volume_synced && a.config.ui.volume.below(level::of(level::SILENT_VOLUME_BITS))
}

pub open spec fn synced_volume(a: &SdrApp) -> Level {
    if volume_is_lost(a) {
        level::of(level::DEFAULT_VOLUME_BITS)
    } else {
        a.config.ui.volume
    }
}

/// The commands that the first frame sends.
pub open spec fn start_commands(a: &SdrApp) -> Seq<Command> {
    (if a.auto_start_pending {
        seq![
            Command::Start,
            Command::SetDemodMode(receiver::stored_mode(a.config.ui.demod_mode@)),
        ]
    } else {
        Seq::empty()
    }) + (if a.volume_synced {
        Seq::empty()
    } else {
        seq![Command::SetVolume(synced_volume(a))]
    })
}

// ── Laws ────────────────────────────────────────────────────────────────────

/// Up tunes one step higher, Down one step lower, Right ten steps higher and Left ten steps lower,
/// in the settings, in the widget and in the last command sent. Of several keys Up counts first,
/// then Down, then Right.
pub proof fn law_arrows_tune_by_steps(a: SdrApp, step: u64, keys: KeyInput, n: SdrApp)
    requires
        0 < step,
        10 * step < a.config.ui.frequency_hz,
        a.config.ui.frequency_hz + 10 * step <= i64::MAX,
        after_arrows(&a, step, keys, &n),
    ensures
        keys.up ==> n.config.ui.frequency_hz == a.config.ui.frequency_hz + step,
        !keys.up && keys.down ==> n.config.ui.frequency_hz == a.config.ui.frequency_hz - step,
        !keys.up && !keys.down && keys.right ==> n.config.ui.frequency_hz
            == a.config.ui.frequency_hz + 10 * step,
        !keys.up && !keys.down && !keys.right && keys.left ==> n.config.ui.frequency_hz
            == a.config.ui.frequency_hz - 10 * step,
        n.frequency_widget.frequency_hz == n.config.ui.frequency_hz,
        n.outbox@.len() > a.outbox@.len(),
        n.outbox@.last() == Command::SetFrequency(n.config.ui.frequency_hz),
{
}

/// Up and then Down, or Down and then Up, end at the frequency at which they started, and so do
/// Right and then Left, or Left and then Right.
pub proof fn law_arrows_undo_each_other(
    a: SdrApp,
    step: u64,
    first: KeyInput,
    b: SdrApp,
    second: KeyInput,
    c: SdrApp,
)
    requires
        0 < step,
        10 * step < a.config.ui.frequency_hz,
        a.config.ui.frequency_hz + 10 * step <= i64::MAX,
        after_arrows(&a, step, first, &b),
        after_arrows(&b, step, second, &c),
        (first.up && !second.up && second.down) || (!first.up && first.down && second.up) || (
        !first.up && !first.down && first.right && !second.up && !second.down && !second.right) || (
        !first.up && !first.down && !first.right && !second.up && !second.down && second.right),
    ensures
        c.config.ui.frequency_hz == a.config.ui.frequency_hz,
        b.config.ui.frequency_hz != a.config.ui.frequency_hz,
{
}

/// Tuning by the arrow keys never leaves the range from 1 Hz to the largest frequency: a step that
/// would, ends at its edge.
pub proof fn law_nudge_stops_at_the_edges(hz: u64, delta: int)
    requires
        hz >= 1,
    ensures
        nudged(hz, delta) >= 1,
        1 <= hz + delta <= u64::MAX ==> nudged(hz, delta) == hz + delta,
        hz + delta < 1 ==> nudged(hz, delta) == 1,
        hz + delta > u64::MAX ==> nudged(hz, delta) == u64::MAX,
{
}

/// What the signal path is set to once the commands that were queued from `a` to `n` are carried
/// out, `s` being what it was set to.
pub open spec fn received(s: Station, a: &SdrApp, n: &SdrApp) -> Station {
    receiver::obeyed_all(s, n.outbox@.skip(a.outbox@.len() as int))
}

pub proof fn lemma_received(s: Station, a: &SdrApp, n: &SdrApp, sent: Seq<Command>)
    requires
        n.queued(a, sent),
    ensures
        received(s, a, n) == receiver::obeyed_all(s, sent),
{
    assert(n.outbox@.skip(a.outbox@.len() as int) =~= sent);
}

pub proof fn lemma_received_none(s: Station, a: &SdrApp, n: &SdrApp)
    requires
        n.queued(a, Seq::empty()) || n.outbox == a.outbox,
    ensures
        received(s, a, n) == s,
{
    assert(n.outbox@.skip(a.outbox@.len() as int) =~= Seq::<Command>::empty());
}

pub proof fn lemma_received_one(s: Station, a: &SdrApp, n: &SdrApp, c: Command)
    requires
        n.queued(a, seq![c]),
    ensures
        received(s, a, n) == receiver::obeyed(s, c),
{
    lemma_received(s, a, n, seq![c]);
    receiver::lemma_short_queues(s, c, c, c);
}

pub proof fn lemma_received_two(s: Station, a: &SdrApp, n: &SdrApp, c: Command, d: Command)
    requires
        n.queued(a, seq![c, d]),
    ensures
        received(s, a, n) == receiver::obeyed(receiver::obeyed(s, c), d),
{
    lemma_received(s, a, n, seq![c, d]);
    receiver::lemma_short_queues(s, c, d, d);
}

/// The ports are numbered in the order of their letters; anything else counts as the first.
pub proof fn law_ports_in_order(antenna: Seq<char>)
    ensures
        port_number("A"@) == 0,
        port_number("B"@) == 1,
        port_number("C"@) == 2,
        antenna != "B"@ && antenna != "C"@ ==> port_number(antenna) == 0,
        forall|x: char, y: char|
            #![trigger port_number(seq![x]), port_number(seq![y])]
            'A' <= x < y <= 'C' ==> port_number(seq![y]) - port_number(seq![x]) == y as int
                - x as int,
{
    reveal_strlit("A");
    reveal_strlit("B");
    reveal_strlit("C");
    assert("B"@ =~= seq!['B']);
    assert("C"@ =~= seq!['C']);
    assert("A"@[0] == 'A' && "B"@[0] == 'B' && "C"@[0] == 'C');
    assert forall|x: char, y: char|
        #![trigger port_number(seq![x]), port_number(seq![y])]
        'A' <= x < y <= 'C' implies port_number(seq![y]) - port_number(seq![x]) == y as int
        - x as int by {
        assert(seq![x][0] == x && seq![y][0] == y);
        assert(seq!['B'][0] == 'B' && seq!['C'][0] == 'C');
    }
}

/// Tuning by hand, the receiver ends at the frequency that the settings and the widget show, on the
/// antenna port that the settings name; an antenna that a bookmark chose is given up for the one
/// before it, and nothing else is changed.
pub proof fn law_tuning_by_hand(a: SdrApp, freq: u64, n: SdrApp, s: Station)
    requires
        after_apply_tune(&a, freq, &n),
        s.antenna == port_number(a.config.source.antenna@),
    ensures
        n.config.ui.frequency_hz == freq,
        n.frequency_widget.frequency_hz == freq,
        !n.frequency_widget.editing,
        n.config_dirty,
        n.bookmarks.prev_antenna is None,
        a.bookmarks.prev_antenna is Some ==> n.config.source.antenna
            == a.bookmarks.prev_antenna->0,
        a.bookmarks.prev_antenna is None ==> n.config.source == a.config.source,
        received(s, &a, &n) == (Station {
            freq_hz: freq,
            antenna: port_number(n.config.source.antenna@),
            ..s
        }),
{
    reveal(receiver::obeyed);
    match a.bookmarks.prev_antenna {
        Some(prev) => lemma_received_two(
            s,
            &a,
            &n,
            Command::SetAntenna(port_number(prev@)),
            Command::SetFrequency(freq),
        ),
        None => lemma_received_one(s, &a, &n, Command::SetFrequency(freq)),
    }
}

/// F1 opens and closes the handbook and the settings remember it, Ctrl and comma open and close the
/// settings window, the question mark the help panel, and Escape gives up a MIDI binding that waits;
/// a second press of a toggle undoes the first. Without an arrow key nothing is tuned or sent.
pub proof fn law_keys_toggle_windows(
    a: SdrApp,
    before: SharedState,
    keys: KeyInput,
    n: SdrApp,
    after: SharedState,
)
    requires
        after_keys(&a, &before, keys, &n, &after),
    ensures
        keys.f1 ==> n.windows.handbook == !a.windows.handbook && n.config.ui.show_handbook
            == n.windows.handbook && n.config_dirty,
        !keys.f1 ==> n.windows.handbook == a.windows.handbook && n.config.ui.show_handbook
            == a.config.ui.show_handbook,
        keys.settings ==> n.windows.settings == !a.windows.settings,
        !keys.settings ==> n.windows.settings == a.windows.settings,
        keys.question ==> after.help_panel_open == !before.help_panel_open,
        !keys.question ==> after.help_panel_open == before.help_panel_open,
        keys.escape ==> after.midi_map_pending is None,
        !keys.escape ==> after.midi_map_pending == before.midi_map_pending,
        !keys.up && !keys.down && !keys.left && !keys.right ==> {
            &&& n.config.ui.frequency_hz == a.config.ui.frequency_hz
            &&& n.outbox@ == a.outbox@
            &&& n.config.source == a.config.source
            &&& n.config_dirty == (a.config_dirty || keys.f1)
        },
        n.windows.onboarding == a.windows.onboarding,
        n.windows.shortcuts == a.windows.shortcuts,
        n.windows.midi_mapper == a.windows.midi_mapper,
{
}

/// In the main window too, Up and Down tune by the step in use and Right and Left by ten of them.
pub proof fn law_keys_tune_by_steps(
    a: SdrApp,
    before: SharedState,
    keys: KeyInput,
    n: SdrApp,
    after: SharedState,
)
    requires
        after_keys(&a, &before, keys, &n, &after),
        0 < before.demod.tune_step_hz,
        10 * before.demod.tune_step_hz < a.config.ui.frequency_hz,
        a.config.ui.frequency_hz + 10 * before.demod.tune_step_hz <= i64::MAX,
    ensures
        ({
            let hz = a.config.ui.frequency_hz;
            let step = before.demod.tune_step_hz;
            let tuned = n.config.ui.frequency_hz;
            &&& keys.up ==> tuned == hz + step
            &&& !keys.up && keys.down ==> tuned == hz - step
            &&& !keys.up && !keys.down && keys.right ==> tuned == hz + 10 * step
            &&& !keys.up && !keys.down && !keys.right && keys.left ==> tuned == hz - 10 * step
            &&& tuned != hz ==> n.frequency_widget.frequency_hz == tuned && n.outbox@.last()
                == Command::SetFrequency(tuned) && n.config_dirty
        }),
{
}

/// The first frame starts the receiver in its stored mode when asked to, and hands over the volume
/// once: the stored one, or 0.8 in place of one below 0.01, which counts as lost.
pub proof fn law_first_frame(a: SdrApp, s: Station)
    ensures
        ({
            let n = receiver::obeyed_all(s, start_commands(&a));
            &&& n.running == (s.running || a.auto_start_pending)
            &&& a.auto_start_pending ==> n.demod.demod_mode == receiver::stored_mode(
                a.config.ui.demod_mode@,
            )
            &&& !a.auto_start_pending ==> n.demod == s.demod
            &&& a.volume_synced ==> n.volume == s.volume && synced_volume(&a)
                == a.config.ui.volume
            &&& !a.volume_synced ==> n.volume == synced_volume(&a)
            &&& n.freq_hz == s.freq_hz
        }),
        ({
            let lost = !a.volume_synced && !a.config.ui.volume.is_nan() && level::number_of(
                a.config.ui.volume.bits,
            ) < level::number_of(0x3C23_D70A);
            synced_volume(&a) == (if lost {
                level::of(0x3F4C_CCCD)
            } else {
                a.config.ui.volume
            })
        }),
        level::is_nearest(0x3C23_D70A, 1, 100),
        level::is_nearest(0x3F4C_CCCD, 4, 5),
{
    lemma2_to64();
    lemma2_to64_rest();
    reveal(receiver::obeyed);
    level::law_order_is_numeric(a.config.ui.volume, level::of(0x3C23_D70A));
    let start = seq![
        Command::Start,
        Command::SetDemodMode(receiver::stored_mode(a.config.ui.demod_mode@)),
    ];
    let volume = Command::SetVolume(synced_volume(&a));
    receiver::lemma_short_queues(s, start[0], start[1], volume);
    receiver::lemma_short_queues(s, volume, volume, volume);
    assert(a.auto_start_pending && a.volume_synced ==> start_commands(&a) =~= start);
    assert(a.auto_start_pending && !a.volume_synced ==> start_commands(&a) =~= seq![
        start[0],
        start[1],
        volume,
    ]);
    assert(!a.auto_start_pending && a.volume_synced ==> start_commands(&a) =~= Seq::<
        Command,
    >::empty());
    assert(!a.auto_start_pending && !a.volume_synced ==> start_commands(&a) =~= seq![volume]);
    assert(start =~= seq![start[0], start[1]]);
}

/// The application starts with its settings unchanged and nothing queued: on the stored frequency, in
/// the stored range, which follows the signal, with the windows that were open and the first-run
/// overlay unless it was seen. A scan dwells 2 seconds; a sweep goes from 87.5 to 108 MHz in steps of
/// 100 kHz with 0.3 seconds each and a squelch of -60 dBFS; a scheduled recording lasts a minute.
pub proof fn law_initial_state(r: SdrApp, config: AppConfig, auto_start: bool)
    requires
        is_initial(r, config, auto_start),
    ensures
        r.config == config && !r.config_dirty,
        r.outbox@.len() == 0 && r.recorder_outbox@.len() == 0,
        r.frequency_widget.frequency_hz == config.ui.frequency_hz,
        r.display.waterfall_freq == config.ui.frequency_hz,
        r.display.fft_floor == config.ui.fft_floor && r.display.fft_ceil == config.ui.fft_ceil,
        r.display.auto_ref && r.display.auto_armed && !r.display.suggest_dismissed,
        r.adsb.show_map == config.ui.adsb_map.show && !r.adsb.start_pending,
        r.windows.handbook == config.ui.show_handbook,
        r.windows.onboarding == !config.ui.seen_onboarding,
        !r.windows.settings && !r.windows.midi_mapper && !r.windows.shortcuts,
        r.auto_start_pending == auto_start && !r.volume_synced,
        level::number_of(r.scan.dwell.bits) == level::whole(2),
        r.scan.range_lo_hz == 87_500_000 && r.scan.range_hi_hz == 108_000_000,
        r.scan.range_step_hz == 100_000,
        level::number_of(r.scan.range_squelch.bits) == level::whole(-60),
        level::is_nearest(r.scan.range_dwell.bits, 3, 10),
        r.sched_delay_secs == 0 && r.sched_duration_secs == 60,
        r.bookmarks.edit_idx is None && r.bookmarks.prev_antenna is None
            && !r.bookmarks.sort_by_freq && r.bookmarks.cat_filter@.len() == 0,
        level::number_of(r.bookmarks.edit.squelch_dbfs.bits) == level::whole(-50),
        r.bookmarks.edit.nfm_bandwidth_hz == 12_500,
{
    lemma2_to64();
    level::lemma_whole(0x4000_0000, 2, 22);
    level::lemma_whole(0xC270_0000, -60, 18);
    level::lemma_whole(0xC248_0000, -50, 18);
}

/// Closing the program stops the receiver, last of all that is queued.
pub proof fn law_exit_stops(a: SdrApp, n: SdrApp, s: Station)
    requires
        after_exit(&a, &n),
    ensures
        received(s, &a, &n) == (Station { running: false, ..s }),
        n.outbox@.last() == Command::Stop,
        n.config == a.config,
{
    reveal(receiver::obeyed);
    assert(n.outbox@ =~= a.outbox@ + seq![Command::Stop]);
    lemma_received_one(s, &a, &n, Command::Stop);
}

/// Any step of which ten fit the signed range can be applied by the arrow keys.
pub proof fn law_ordinary_steps_are_key_steps(step: u64)
    requires
        10 * step <= i64::MAX,
    ensures
        is_key_step(step),
{
}

/// A frame begins with the settings saved when they were due: after a change, after a lost volume was
/// replaced, or when the bindings in use are not the stored ones. Then nothing is due any more, the
/// stored bindings are those in use, and neither start nor volume is sent again.
pub proof fn law_frame_saves_what_is_due(
    a: SdrApp,
    shared: SharedState,
    n: SdrApp,
    save: bool,
    m: SdrApp,
    again: bool,
)
    requires
        after_begin_frame(&a, &shared, &n, save),
        after_begin_frame(&n, &shared, &m, again),
    ensures
        a.config_dirty ==> save,
        !bindings::inverts(shared.midi_cc_to_knob@, a.config.midi_learn@) ==> save,
        !a.config_dirty && a.volume_synced && bindings::inverts(
            shared.midi_cc_to_knob@,
            a.config.midi_learn@,
        ) ==> !save,
        bindings::inverts(shared.midi_cc_to_knob@, n.config.midi_learn@),
        !n.config_dirty && !n.auto_start_pending && n.volume_synced,
        n.outbox@ == a.outbox@ + start_commands(&a),
        !again && m.outbox@ == n.outbox@ && m.config.ui == n.config.ui,
        n.config.ui.frequency_hz == a.config.ui.frequency_hz && n.config.source == a.config.source,
{
}

/// A fresh widget shows its frequency with no digit active, no entry open, no tint and without the
/// keyboard; its nudge step is 10 kHz.
pub proof fn law_fresh_widget(w: FrequencyWidget, hz: u64)
    requires
        is_fresh_widget(w, hz),
    ensures
        w.frequency_hz == hz,
        w.step_hz == 10_000,
        w.clamped_ticks == 0,
        w.active_digit is None,
        !w.has_keyboard_focus && !w.editing,
        w.edit_text@.len() == 0,
{
}

} // verus!
