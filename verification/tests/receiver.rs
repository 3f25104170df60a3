//! The receiver front end: commands, settings and panels.

use std::collections::HashMap;

use sdrapp_ui::adsb_map::AdsbMapWindow;
use sdrapp_ui::app;
use sdrapp_ui::app::KeyInput;
use sdrapp_ui::app::SdrApp;
use sdrapp_ui::bindings::Binding;
use sdrapp_ui::bookmarks;
use sdrapp_ui::center;
use sdrapp_ui::center::HintAction;
use sdrapp_ui::config::AppConfig;
use sdrapp_ui::config::BookmarkConfig;
use sdrapp_ui::config::MapConfig;
use sdrapp_ui::config::RigctlConfig;
use sdrapp_ui::config::SourceConfig;
use sdrapp_ui::config::UiConfig;
use sdrapp_ui::controls;
use sdrapp_ui::controls::WaterfallColormap;
use sdrapp_ui::degrees::Degrees;
use sdrapp_ui::demod;
use sdrapp_ui::device;
use sdrapp_ui::frequency::DisplayInput;
use sdrapp_ui::frequency::EditInput;
use sdrapp_ui::frequency::Scroll;
use sdrapp_ui::left;
use sdrapp_ui::level::Level;
use sdrapp_ui::receiver;
use sdrapp_ui::receiver::Bookmark;
use sdrapp_ui::receiver::Command;
use sdrapp_ui::receiver::DemodMode;
use sdrapp_ui::receiver::DemodState;
use sdrapp_ui::receiver::FftState;
use sdrapp_ui::receiver::FftWindow;
use sdrapp_ui::receiver::RdsState;
use sdrapp_ui::receiver::RecorderCommand;
use sdrapp_ui::receiver::RecordingMode;
use sdrapp_ui::receiver::ScannerState;
use sdrapp_ui::receiver::SharedState;
use sdrapp_ui::right;
use sdrapp_ui::theme;

fn lvl(x: f32) -> Level {
    Level { bits: x.to_bits() }
}

fn deg(x: f64) -> Degrees {
    Degrees { bits: x.to_bits() }
}

fn text(s: &str) -> String {
    String::from(s)
}

fn config() -> AppConfig {
    AppConfig {
        ui: UiConfig {
            frequency_hz: 100_000_000,
            span_hz: 1_000_000,
            demod_mode: text("Nfm"),
            nfm_bandwidth_hz: 12_500,
            ctcss_enabled: false,
            volume: lvl(0.5),
            zoom_level: lvl(1.0),
            waterfall_speed: lvl(1.0),
            tune_step_hz: 10_000,
            fft_size: 2048,
            fft_window: text("Hann"),
            fft_averaging: 4,
            band_plan_enabled: true,
            fft_floor: lvl(-120.0),
            fft_ceil: lvl(-20.0),
            waterfall_colormap: text("Thermal"),
            spectrum_split: lvl(0.36),
            seen_onboarding: false,
            show_handbook: false,
            handbook_section: 0,
            handbook_page: 0,
            adsb_map: MapConfig {
                show: false,
                home_lat: deg(41.5),
                home_lon: deg(-81.7),
                lat: deg(41.5),
                lon: deg(-81.7),
                zoom: lvl(12.0),
            },
        },
        source: SourceConfig {
            antenna: text("A"),
            sample_rate_sps: 2_000_000,
            if_mode: text("Zero"),
            decimation_factor: 4,
            agc_enabled: true,
            agc_setpoint_dbfs: -30,
            lna_state: 4,
            if_gain_dbfs: -40,
            bias_t_enabled: false,
            hdr_mode: false,
            am_notch_enabled: false,
            fm_notch_enabled: true,
        },
        rigctl: RigctlConfig { enabled: false, port: 4532 },
        bookmarks: Vec::new(),
        bookmarks_file: None,
        bookmarks_export_path: text("bookmarks.csv"),
        midi_learn: Vec::new(),
    }
}

fn shared() -> SharedState {
    SharedState {
        is_running: true,
        is_recording: false,
        is_stereo: false,
        center_freq_hz: 100_000_000,
        sample_rate_sps: 2_000_000,
        source_name: None,
        zoom_level: lvl(1.0),
        waterfall_speed: lvl(1.0),
        demod: DemodState {
            demod_mode: DemodMode::Nfm,
            nfm_bandwidth_hz: 12_500,
            squelch_threshold: lvl(-50.0),
            ctcss_squelch_enabled: false,
            tune_step_hz: 10_000,
        },
        fft: FftState {
            fft_size: 2048,
            fft_window: FftWindow::Hann,
            fft_averaging: 4,
            band_plan_enabled: true,
            peak_hold_enabled: true,
            peak_hold_decay_db: lvl(0.5),
            fft_clipping_detected: false,
        },
        scanner: ScannerState {
            scan_running: false,
            scan_cursor: 0,
            range_mode: false,
            range_freq_hz: 0,
        },
        rds: RdsState { ps_name: None, pty_name: None, ta: false, rt: None },
        bookmarks: Vec::new(),
        bookmark_cursor: 0,
        midi_learn_target: None,
        midi_map_pending: None,
        midi_cc_to_knob: HashMap::new(),
        midi_device: None,
        midi_page: 0,
        help_panel_open: false,
        recording_mode: RecordingMode::Both,
        recorder_error: None,
    }
}

fn new_app() -> SdrApp {
    SdrApp::new(config(), false)
}

fn bookmark(name: &str, freq_hz: u64, category: &str) -> Bookmark {
    Bookmark {
        name: text(name),
        freq_hz,
        mode: DemodMode::Nfm,
        category: text(category),
        nfm_bandwidth_hz: Some(25_000),
        squelch_threshold_dbfs: None,
        ctcss_enabled: Some(true),
        antenna: Some(text("B")),
    }
}

fn no_keys() -> KeyInput {
    KeyInput {
        f1: false,
        question: false,
        escape: false,
        settings: false,
        up: false,
        down: false,
        left: false,
        right: false,
    }
}

// ── Frames and keys ─────────────────────────────────────────────────────────

#[test]
fn the_first_frame_starts_the_receiver() {
    let mut a = SdrApp::new(config(), true);
    assert!(!a.begin_frame(&shared()));
    assert_eq!(a.outbox.len(), 3);
    assert!(matches!(a.outbox[0], Command::Start));
    assert!(matches!(a.outbox[1], Command::SetDemodMode(DemodMode::Nfm)));
    assert!(matches!(a.outbox[2], Command::SetVolume(v) if v == lvl(0.5)));
    assert!(!a.begin_frame(&shared()));
    assert_eq!(a.outbox.len(), 3);
}

#[test]
fn a_lost_volume_is_replaced() {
    let mut c = config();
    c.ui.volume = lvl(0.0);
    let mut a = SdrApp::new(c, false);
    assert!(a.begin_frame(&shared()));
    assert_eq!(a.config.ui.volume, lvl(0.8));
    assert!(matches!(a.outbox[0], Command::SetVolume(v) if v == lvl(0.8)));
}

#[test]
fn learned_bindings_are_stored() {
    let mut a = new_app();
    let mut s = shared();
    s.midi_cc_to_knob.insert(7, text("volume"));
    assert!(a.begin_frame(&s));
    let stored: Vec<(&str, u8)> =
        a.config.midi_learn.iter().map(|b: &Binding| (b.knob.as_str(), b.cc)).collect();
    assert_eq!(stored, vec![("volume", 7)]);
    assert!(!a.begin_frame(&s));
    s.midi_cc_to_knob.insert(7, text("zoom"));
    assert!(a.begin_frame(&s));
    let stored: Vec<(&str, u8)> =
        a.config.midi_learn.iter().map(|b: &Binding| (b.knob.as_str(), b.cc)).collect();
    assert_eq!(stored, vec![("zoom", 7)]);
    assert!(!a.begin_frame(&s));
    s.midi_cc_to_knob.insert(8, text("zoom"));
    assert!(!a.begin_frame(&s));
    s.midi_cc_to_knob.remove(&7);
    assert!(a.begin_frame(&s));
    assert_eq!(a.config.midi_learn[0].cc, 8);
}

#[test]
fn keys_tune_and_toggle() {
    let mut a = new_app();
    let mut s = shared();
    a.handle_keys(&mut s, KeyInput { up: true, ..no_keys() });
    assert_eq!(a.config.ui.frequency_hz, 100_010_000);
    assert_eq!(a.frequency_widget.frequency_hz, 100_010_000);
    assert!(matches!(a.outbox.last(), Some(Command::SetFrequency(100_010_000))));
    a.handle_keys(&mut s, KeyInput { left: true, ..no_keys() });
    assert_eq!(a.config.ui.frequency_hz, 99_910_000);
    s.midi_map_pending = Some(3);
    a.handle_keys(
        &mut s,
        KeyInput { f1: true, question: true, escape: true, settings: true, ..no_keys() },
    );
    assert!(a.windows.handbook && a.config.ui.show_handbook && a.windows.settings);
    assert!(s.help_panel_open);
    assert_eq!(s.midi_map_pending, None);
    assert_eq!(app::nudge(5, -10), 1);
    assert_eq!(app::nudge(u64::MAX, 10), u64::MAX);
}

#[test]
fn closing_stops_the_receiver() {
    let mut a = new_app();
    a.on_exit();
    assert!(matches!(a.outbox.last(), Some(Command::Stop)));
}

// ── Bookmarks ───────────────────────────────────────────────────────────────

#[test]
fn a_recalled_bookmark_sets_the_receiver() {
    let mut a = new_app();
    let mut s = shared();
    s.bookmarks.push(bookmark("x", 145_000_000, ""));
    a.bookmark_recall(&mut s, 0);
    assert_eq!(a.config.ui.frequency_hz, 145_000_000);
    assert_eq!(a.config.source.antenna, "B");
    assert_eq!(a.bookmarks.prev_antenna, Some(text("A")));
    assert_eq!(a.outbox.len(), 5);
    assert!(matches!(a.outbox[0], Command::SetAntenna(1)));
    assert!(matches!(a.outbox[1], Command::SetFrequency(145_000_000)));
    assert!(matches!(a.outbox[2], Command::SetDemodMode(DemodMode::Nfm)));
    assert!(matches!(a.outbox[3], Command::SetNfmBandwidth(25_000)));
    assert!(matches!(a.outbox[4], Command::SetCtcssEnabled(true)));
    a.apply_tune(7_000_000);
    assert_eq!(a.config.source.antenna, "A");
    assert_eq!(a.bookmarks.prev_antenna, None);
    assert!(matches!(a.outbox[a.outbox.len() - 2], Command::SetAntenna(0)));
    assert!(matches!(a.outbox[a.outbox.len() - 1], Command::SetFrequency(7_000_000)));
}

/// The front end after a bookmark has taken it from antenna A to antenna B.
fn recalled_app() -> SdrApp {
    let mut a = new_app();
    let mut s = shared();
    s.bookmarks.push(bookmark("x", 145_000_000, ""));
    a.bookmark_recall(&mut s, 0);
    assert_eq!(a.config.source.antenna, "B");
    a.outbox.clear();
    a
}

/// The old antenna is back, and the receiver heard of it before it heard of `hz`.
fn assert_antenna_restored(a: &SdrApp, hz: u64) {
    assert_eq!(a.config.source.antenna, "A");
    assert_eq!(a.bookmarks.prev_antenna, None);
    assert_eq!(a.config.ui.frequency_hz, hz);
    assert_eq!(a.frequency_widget.frequency_hz, hz);
    assert!(matches!(a.outbox[0], Command::SetAntenna(0)));
    assert!(matches!(a.outbox[1], Command::SetFrequency(f) if f == hz));
}

#[test]
fn tuning_away_restores_the_antenna() {
    let mut a = recalled_app();
    a.apply_preset(0, 0, lvl(0.5));
    assert_antenna_restored(&a, right::band_preset(0).center_hz);
    assert_eq!(a.outbox.len(), 3);

    let mut a = recalled_app();
    a.handle_keys(&mut shared(), KeyInput { up: true, ..no_keys() });
    assert_antenna_restored(&a, 145_010_000);

    let mut a = recalled_app();
    a.handle_keys(&mut shared(), KeyInput { f1: true, ..no_keys() });
    assert_eq!(a.config.source.antenna, "B");

    let mut a = recalled_app();
    a.pan(145_000_000, 1_000);
    assert_antenna_restored(&a, 144_999_000);

    let mut a = recalled_app();
    a.scroll_tune(145_000_000, 1_000, true);
    assert_antenna_restored(&a, 145_001_000);

    let mut a = recalled_app();
    a.nudge_button(1_000, 10);
    assert_antenna_restored(&a, 145_010_000);

    let mut a = recalled_app();
    assert!(a.adsb_start_decoder(true));
    assert_antenna_restored(&a, 1_090_000_000);

    let mut a = recalled_app();
    let scrolled = DisplayInput {
        hovered_digit: Some(2),
        in_widget: true,
        clicked: false,
        any_click: false,
        double_clicked: false,
        scroll: Scroll::Up,
        arrow_up: false,
        arrow_down: false,
    };
    let still = EditInput { text: text(""), enter: false, escape: false, lost_focus: false };
    assert_eq!(a.show_frequency(scrolled, still).new_freq, Some(146_000_000));
    assert_antenna_restored(&a, 146_000_000);
}

#[test]
fn imported_bookmarks_keep_their_settings() {
    let mut a = new_app();
    let mut s = shared();
    a.bookmark_import(&mut s, vec![]);
    assert!(s.bookmarks.is_empty() && !a.config_dirty);
    let row = BookmarkConfig {
        name: text("x"),
        freq_hz: 145_000_000,
        mode: text("Nfm"),
        category: text("air"),
        nfm_bandwidth_hz: Some(6_250),
        squelch_threshold_dbfs: Some(lvl(-70.0)),
        ctcss_enabled: Some(true),
        antenna: Some(text("C")),
    };
    a.bookmark_import(&mut s, vec![row]);
    assert_eq!((a.config.bookmarks.len(), s.bookmarks.len()), (1, 1));
    assert!(a.config_dirty);
    let b = &s.bookmarks[0];
    assert_eq!((b.name.as_str(), b.category.as_str()), ("x", "air"));
    assert_eq!((b.freq_hz, b.mode), (145_000_000, DemodMode::Nfm));
    assert_eq!(b.nfm_bandwidth_hz, Some(6_250));
    assert_eq!(b.squelch_threshold_dbfs, Some(lvl(-70.0)));
    assert_eq!(b.ctcss_enabled, Some(true));
    assert_eq!(b.antenna, Some(text("C")));
}

#[test]
fn the_current_station_is_saved() {
    let mut a = new_app();
    a.bookmark_save_current(&shared());
    assert_eq!(a.config.bookmarks.len(), 1);
    assert_eq!(a.config.bookmarks[0].name, "100.000 MHz");
    assert_eq!(a.config.bookmarks[0].freq_hz, 100_000_000);
    assert_eq!(a.config.bookmarks[0].mode, "Nfm");
    assert!(a.config_dirty);
    a.bookmark_remove(0);
    assert!(a.config.bookmarks.is_empty());
    assert!(matches!(a.outbox.last(), Some(Command::RemoveBookmark(0))));
}

#[test]
fn bookmarks_are_listed_by_frequency_and_category() {
    let list = vec![
        bookmark("c", 300, "air"),
        bookmark("a", 100, "sea"),
        bookmark("b", 200, "air"),
    ];
    assert_eq!(bookmarks::listed(&list, false, ""), vec![0, 1, 2]);
    assert_eq!(bookmarks::listed(&list, true, ""), vec![1, 2, 0]);
    assert_eq!(bookmarks::listed(&list, true, "air"), vec![2, 0]);
    assert_eq!(bookmarks::categories(&list), vec![text(""), text("air"), text("sea")]);
    assert_eq!(left::scan_count(&list, "air"), 2);
    assert_eq!(left::scan_count(&list, ""), 3);
    assert_eq!(left::bookmark_label("x", 145_500_000), "x — 145.500 MHz");
}

#[test]
fn an_untouched_edit_changes_nothing() {
    let mut a = new_app();
    let mut s = shared();
    s.bookmarks.push(bookmark("x", 145_500_000, "ham"));
    a.config.bookmarks.push(BookmarkConfig {
        name: text("x"),
        freq_hz: 145_500_000,
        mode: text("Nfm"),
        category: text("ham"),
        nfm_bandwidth_hz: Some(25_000),
        squelch_threshold_dbfs: None,
        ctcss_enabled: Some(true),
        antenna: Some(text("B")),
    });
    a.bookmark_start_edit(&s, 0);
    assert_eq!(a.bookmarks.edit_idx, Some(0));
    assert!(bookmarks::edit_is_valid(&a.bookmarks.edit.freq));
    a.bookmark_commit_edit(0);
    assert_eq!(a.config.bookmarks[0].freq_hz, 145_500_000);
    assert_eq!(a.config.bookmarks[0].name, "x");
    assert_eq!(a.bookmarks.edit_idx, None);
    a.bookmark_start_edit(&s, 0);
    a.bookmark_cancel_edit();
    assert_eq!(a.bookmarks.edit_idx, None);
}

// ── Left panel ──────────────────────────────────────────────────────────────

#[test]
fn the_start_button() {
    let mut a = new_app();
    a.toggle_running(true);
    assert!(matches!(a.outbox.last(), Some(Command::Stop)));
    a.toggle_running(false);
    assert!(a.outbox.iter().any(|c| matches!(c, Command::Start)));
    a.set_tune_step(25_000);
    assert!(matches!(a.outbox.last(), Some(Command::SetTuneStep(25_000))));
    a.nudge_button(10_000, -10);
    assert_eq!(a.config.ui.frequency_hz, 99_900_000);
    assert_eq!(left::source_label(&None, &None), "No device");
    assert_eq!(left::step_choice(3), (100_000, "100 kHz"));
}

#[test]
fn demodulator_controls() {
    let mut a = new_app();
    a.select_mode(DemodMode::Nfm, DemodMode::Nfm);
    assert!(a.outbox.is_empty());
    a.select_mode(DemodMode::Nfm, DemodMode::Am);
    assert!(matches!(a.outbox.last(), Some(Command::SetDemodMode(DemodMode::Am))));
    a.select_nfm_bandwidth(12_500, 12_500);
    assert!(!a.config_dirty);
    a.select_nfm_bandwidth(12_500, 25_000);
    assert_eq!(a.config.ui.nfm_bandwidth_hz, 25_000);
    assert!(a.config_dirty);
    a.set_squelch(lvl(-70.0));
    assert!(matches!(a.outbox.last(), Some(Command::SetSquelchThreshold(x)) if *x == lvl(-70.0)));
    a.toggle_ctcss(false);
    assert!(a.config.ui.ctcss_enabled);
    assert_eq!(demod::ctcss_label(true, true), "CTCSS ✓");
    assert_eq!(demod::ctcss_label(true, false), "CTCSS (no tone)");
    assert_eq!(demod::ctcss_label(false, true), "CTCSS off");
    assert_eq!(demod::mode_choice(1), Some((DemodMode::Nfm, "NFM")));
    assert_eq!(demod::mode_choice(3), None);
    assert_eq!(demod::width_choice(0), Some((12_500, "12.5k")));
    assert_eq!(demod::width_choice(2), None);
    let mut s = shared();
    demod::select_recording(&mut s, RecordingMode::IqOnly);
    assert_eq!(s.recording_mode, RecordingMode::IqOnly);
    assert_eq!(s.recording_mode.label(), "IQ");
}

#[test]
fn stored_modes_are_read_back() {
    for mode in [
        DemodMode::Wbfm,
        DemodMode::Nfm,
        DemodMode::Am,
        DemodMode::Usb,
        DemodMode::Lsb,
        DemodMode::Dsb,
        DemodMode::Cw,
    ] {
        assert_eq!(receiver::parse_config_demod_mode(mode.name()), mode);
    }
    assert_eq!(receiver::parse_config_demod_mode("?"), DemodMode::Wbfm);
}

// ── Device ──────────────────────────────────────────────────────────────────

#[test]
fn high_dynamic_range_limits_the_amplifier() {
    let mut a = new_app();
    a.config.source.lna_state = 30;
    a.config.source.hdr_mode = true;
    a.limit_lna();
    assert!(a.config.source.lna_state <= device::lna_max(true));
    assert!(device::hdr_available(1_999_999));
    assert!(!device::hdr_available(2_000_001));
}

#[test]
fn device_settings_are_sent() {
    let mut a = new_app();
    a.toggle_bias_t();
    assert!(a.config.source.bias_t_enabled);
    assert!(matches!(a.outbox.last(), Some(Command::SetBiasT(true))));
    a.toggle_agc();
    assert!(!a.config.source.agc_enabled);
    assert!(a.outbox.iter().any(|c| matches!(c, Command::SetAgcEnabled(false))));
    a.set_if_gain(-20);
    assert_eq!(a.config.source.if_gain_dbfs, -20);
    assert!(matches!(a.outbox.last(), Some(Command::SetIfGain(-20))));
    assert_eq!(app::antenna_port("C"), 2);
    assert_eq!(app::antenna_port("?"), 0);
}

// ── Right panel ─────────────────────────────────────────────────────────────

#[test]
fn presets_tune() {
    let mut a = new_app();
    let p = right::band_preset(0);
    a.apply_preset(0, 2_000_000, lvl(0.5));
    assert_eq!(a.config.ui.frequency_hz, p.center_hz);
    assert_eq!(a.config.ui.zoom_level, lvl(0.5));
    a.apply_preset(0, 2_000_000, lvl(7.0));
    assert_eq!(a.config.ui.zoom_level, lvl(1.0));
}

#[test]
fn the_aircraft_decoder_waits_for_the_rate() {
    let mut a = new_app();
    assert!(!a.adsb_map_clicked(500_000, false, true));
    assert!(a.adsb.show_map);
    assert!(a.adsb.start_pending);
    assert_eq!(a.config.source.decimation_factor, 1);
    assert!(!a.adsb_deferred_start(1_000_000, true));
    assert!(a.adsb_deferred_start(2_000_000, true));
    assert_eq!(a.config.ui.frequency_hz, 1_090_000_000);
    a.adsb_stop_decoder();
    assert_eq!(a.config.source.decimation_factor, 4);
    assert!(matches!(a.outbox.last(), Some(Command::SetDecimationFactor(4))));
}

#[test]
fn the_map_button_opens_the_map() {
    let mut a = new_app();
    a.adsb.show_map = true;
    assert!(a.adsb_map_clicked(2_000_000, false, true));
    assert!(a.adsb.show_map);
    assert_eq!(a.config.ui.frequency_hz, 1_090_000_000);
    assert!(!a.adsb_map_clicked(2_000_000, true, true));
    assert!(!a.adsb.show_map);
    assert!(!a.adsb_map_clicked(2_000_000, true, true));
    assert!(a.adsb.show_map);
}

#[test]
fn the_map_window_is_taken_over() {
    let mut a = new_app();
    a.adsb.show_map = true;
    let mut map = AdsbMapWindow::new();
    map.pan(deg(10.0), deg(20.0));
    map.pin_home();
    a.sync_adsb_map(&mut map, true);
    assert!(!map.set_home_pending);
    assert_eq!(a.config.ui.adsb_map.home_lat, deg(10.0));
    assert_eq!(a.config.ui.adsb_map.lon, deg(20.0));
    assert!(a.config.ui.adsb_map.show && a.config_dirty);
    map.viewport_open = false;
    map.pan(deg(0.0), deg(0.0));
    a.sync_adsb_map(&mut map, true);
    assert!(map.viewport_open);
    assert!(!a.adsb.show_map && !a.config.ui.adsb_map.show);
    assert_eq!(a.config.ui.adsb_map.lat, deg(10.0));
}

#[test]
fn recordings_are_started_and_scheduled() {
    let mut a = new_app();
    a.start_recording(&shared());
    assert!(matches!(
        a.recorder_outbox.last(),
        Some(RecorderCommand::Start {
            freq_hz: 100_000_000,
            iq_sample_rate: 2_000_000,
            mode: RecordingMode::Both
        })
    ));
    a.stop_recording();
    assert!(matches!(a.recorder_outbox.last(), Some(RecorderCommand::Stop)));
    a.sched_delay_secs = 30;
    a.arm_schedule(&shared(), 1_000);
    assert!(matches!(
        a.recorder_outbox.last(),
        Some(RecorderCommand::Schedule { start_unix_secs: 1_030, duration_secs: 60, .. })
    ));
    assert_eq!(right::shorten("short", 32, 31), "short");
    assert_eq!(right::shorten(&"x".repeat(40), 32, 31), format!("{}…", "x".repeat(31)));
    assert_eq!(right::vu_color(lvl(0.95)), theme::rgb(theme::VU_HIGH));
    assert_eq!(right::vu_color(lvl(0.7)), theme::rgb(theme::VU_MID));
    assert_eq!(right::vu_color(lvl(0.6)), theme::rgb(theme::VU_LOW));
    assert!(right::source_is_demo(&Some(text("Demo source"))));
}

// ── Centre panel ────────────────────────────────────────────────────────────

#[test]
fn gestures_tune() {
    let mut a = new_app();
    a.scroll_tune(100_000_000, 10_000, false);
    assert_eq!(a.config.ui.frequency_hz, 99_990_000);
    a.scroll_tune(5, 10, false);
    assert_eq!(a.config.ui.frequency_hz, 1);
    a.pan(100_000_000, -500);
    a.pan(a.config.ui.frequency_hz, 500);
    assert_eq!(a.config.ui.frequency_hz, 100_000_000);
    a.set_zoom(lvl(0.001), lvl(0.005));
    assert_eq!(a.config.ui.zoom_level, lvl(0.005));
}

#[test]
fn the_passband_surrounds_the_carrier() {
    let (lo, hi) = center::passband(100_000_000, DemodMode::Nfm, 12_500, true);
    assert_eq!((lo, hi), (99_993_750, 100_006_250));
    let (lo, hi) = center::passband(100_000_000, DemodMode::Usb, 12_500, true);
    assert!(lo >= 100_000_000 && hi > lo);
    let ov = center::waterfall_overlay(100_000_000, 1_000_000, DemodMode::Nfm, 12_500, true);
    assert_eq!(ov.vfo_hz, 100_000_000);
    assert_eq!(ov.freq_range, (99_000_000, 101_000_000));
}

#[test]
fn hints_are_applied() {
    let mut a = new_app();
    a.apply_hint(HintAction::SetVolume(lvl(0.7)), lvl(1.0), lvl(0.005));
    assert_eq!(a.config.ui.volume, lvl(0.7));
    a.apply_hint(HintAction::SetDemodMode(DemodMode::Am), lvl(1.0), lvl(0.005));
    assert!(matches!(a.outbox.last(), Some(Command::SetDemodMode(DemodMode::Am))));
    a.apply_hint(HintAction::DisableFmNotch, lvl(1.0), lvl(0.005));
    assert!(!a.config.source.fm_notch_enabled);
}

#[test]
fn a_manual_range_suspends_the_automatic_one() {
    let mut a = new_app();
    a.display.auto_ref = true;
    a.drag_ceil(lvl(-10.0), lvl(-110.0), 5_000_000);
    assert_eq!(a.display.fft_ceil, lvl(-10.0));
    a.rearm_auto_range(14_999_999);
    assert!(!a.display.auto_armed);
    a.rearm_auto_range(16_000_000);
    assert!(a.display.auto_armed);
}

#[test]
fn dragged_bounds_keep_their_limits() {
    let mut a = new_app();
    a.drag_ceil(lvl(5.0), lvl(-90.0), 1);
    assert_eq!(a.display.fft_ceil, lvl(0.0));
    assert_eq!(a.config.ui.fft_ceil, lvl(0.0));
    a.drag_ceil(lvl(-95.0), lvl(-90.0), 2);
    assert_eq!(a.display.fft_ceil, lvl(-90.0));
    a.drag_floor(lvl(-200.0), lvl(-100.0), 3);
    assert_eq!(a.display.fft_floor, lvl(-160.0));
    a.drag_floor(lvl(-50.0), lvl(-100.0), 4);
    assert_eq!(a.display.fft_floor, lvl(-100.0));
    assert_eq!(a.display.last_manual_us, 4);
}

#[test]
fn display_settings_are_stored() {
    let mut a = new_app();
    a.select_fft_size(4096, 2048);
    assert_eq!(a.config.ui.fft_size, 4096);
    assert!(matches!(a.outbox.last(), Some(Command::SetFftSize(4096))));
    a.select_fft_window(FftWindow::Hamming, FftWindow::Hann);
    assert_eq!(a.config.ui.fft_window, FftWindow::Hamming.name());
    a.toggle_band_plan(true);
    assert!(!a.config.ui.band_plan_enabled);
    assert_eq!(a.select_palette("Inferno"), Some(WaterfallColormap::Inferno));
    assert_eq!(controls::parse_palette("nothing"), WaterfallColormap::Thermal);
    for p in [
        WaterfallColormap::Thermal,
        WaterfallColormap::Inferno,
        WaterfallColormap::Grayscale,
        WaterfallColormap::Classic,
    ] {
        assert_eq!(controls::parse_palette(p.name()), p);
    }
    assert_eq!(controls::bandwidth_label(1_000_000), "2.00 MHz");
    assert_eq!(controls::bandwidth_label(100_000), "200 kHz");
}

#[test]
fn the_handbook_page_is_stored() {
    let mut a = new_app();
    a.windows.handbook = true;
    a.sync_handbook(true, 2, 1);
    assert_eq!((a.config.ui.handbook_section, a.config.ui.handbook_page), (2, 1));
    a.sync_handbook(false, 2, 1);
    assert!(!a.windows.handbook);
}

#[test]
fn the_range_follows_the_signal_unless_set_by_hand() {
    let mut a = new_app();
    a.follow_signal(9, lvl(-95.0), true, lvl(-15.0), true);
    assert_eq!(a.display.fft_floor, a.config.ui.fft_floor);
    assert_ne!(a.display.fft_floor, lvl(-95.0));
    a.follow_signal(10, lvl(-95.0), true, lvl(-15.0), false);
    assert_eq!(a.display.fft_floor, lvl(-95.0));
    assert_eq!(a.config.ui.fft_floor, lvl(-95.0));
    assert_ne!(a.display.fft_ceil, lvl(-15.0));
    assert!(a.config_dirty);
    a.drag_floor(lvl(-110.0), lvl(-10.0), 1_000_000);
    let floor = a.display.fft_floor;
    a.rearm_auto_range(11_000_000);
    a.follow_signal(1024, lvl(-80.0), true, lvl(-5.0), true);
    assert_eq!(a.display.fft_floor, floor);
    a.rearm_auto_range(11_000_001);
    a.follow_signal(1024, lvl(-80.0), true, lvl(-5.0), true);
    assert_eq!(a.display.fft_floor, lvl(-80.0));
    assert_eq!(a.display.fft_ceil, lvl(-5.0));
}

#[test]
fn the_divider_stays_in_its_limits() {
    let mut a = new_app();
    a.drag_split(lvl(0.5));
    assert_eq!(a.config.ui.spectrum_split, lvl(0.5));
    a.drag_split(lvl(0.1));
    assert_eq!(a.config.ui.spectrum_split, lvl(0.15));
    a.drag_split(lvl(0.9));
    assert_eq!(a.config.ui.spectrum_split, lvl(0.8));
}

#[test]
fn the_shortcut_overlay_opens_and_closes() {
    let mut a = new_app();
    a.windows.shortcuts = false;
    a.shortcut_overlay(true, false);
    assert!(a.windows.shortcuts);
    a.shortcut_overlay(false, false);
    assert!(a.windows.shortcuts);
    a.shortcut_overlay(true, false);
    assert!(!a.windows.shortcuts);
    a.shortcut_overlay(true, true);
    assert!(!a.windows.shortcuts);
}

#[test]
fn the_edit_form_offers_seven_modes() {
    assert_eq!(bookmarks::edit_mode_choice(0), Some((DemodMode::Wbfm, "WBFM")));
    assert_eq!(bookmarks::edit_mode_choice(6), Some((DemodMode::Cw, "CW")));
    assert_eq!(bookmarks::edit_mode_choice(7), None);
}
