//! The MIDI mapper and the MIDI part of knobs.

use std::collections::HashMap;

use sdrapp_ui::bindings;
use sdrapp_ui::bindings::Binding;
use sdrapp_ui::level::Level;
use sdrapp_ui::midi;
use sdrapp_ui::midi::ActionBinding;
use sdrapp_ui::midi::ControlDef;
use sdrapp_ui::midi::ControlGesture;
use sdrapp_ui::midi::ControlState;
use sdrapp_ui::midi::MidiKey;
use sdrapp_ui::midi::MidiKeyKind;
use sdrapp_ui::midi::MidiMapperWindow;
use sdrapp_ui::midi::Pulse;
use sdrapp_ui::receiver::DemodMode;
use sdrapp_ui::receiver::DemodState;
use sdrapp_ui::receiver::FftState;
use sdrapp_ui::receiver::FftWindow;
use sdrapp_ui::receiver::RdsState;
use sdrapp_ui::receiver::RecordingMode;
use sdrapp_ui::receiver::ScannerState;
use sdrapp_ui::receiver::SharedState;
use sdrapp_ui::knob_binding;
use sdrapp_ui::theme;
use sdrapp_ui::theme::Color;

fn text(s: &str) -> String {
    String::from(s)
}

fn shared(pairs: &[(u8, &str)]) -> SharedState {
    let level = Level { bits: 0 };
    SharedState {
        is_running: false,
        is_recording: false,
        is_stereo: false,
        center_freq_hz: 0,
        sample_rate_sps: 0,
        source_name: None,
        zoom_level: level,
        waterfall_speed: level,
        demod: DemodState {
            demod_mode: DemodMode::Am,
            nfm_bandwidth_hz: 0,
            squelch_threshold: level,
            ctcss_squelch_enabled: false,
            tune_step_hz: 1,
        },
        fft: FftState {
            fft_size: 0,
            fft_window: FftWindow::Hann,
            fft_averaging: 0,
            band_plan_enabled: false,
            peak_hold_enabled: false,
            peak_hold_decay_db: level,
            fft_clipping_detected: false,
        },
        scanner: ScannerState {
            scan_running: false,
            scan_cursor: 0,
            range_mode: false,
            range_freq_hz: 0,
        },
        rds: RdsState { ps_name: None, pty_name: None, ta: false, rt: None },
        bookmarks: Vec::new(),
        bookmark_cursor: 0,
        midi_learn_target: None,
        midi_map_pending: None,
        midi_cc_to_knob: pairs.iter().map(|&(cc, knob)| (cc, text(knob))).collect(),
        midi_device: None,
        midi_page: 0,
        help_panel_open: false,
        recording_mode: RecordingMode::Both,
        recorder_error: None,
    }
}

fn cc(number: u8) -> MidiKey {
    MidiKey { kind: MidiKeyKind::ControlChange, number }
}

fn note(number: u8) -> MidiKey {
    MidiKey { kind: MidiKeyKind::NoteOn, number }
}

fn action(page: usize, key: &str, action: &str) -> ActionBinding {
    ActionBinding { page, key: text(key), action: text(action) }
}

#[test]
fn actions_are_found_by_page_and_key() {
    let table = vec![
        action(0, "CC 7", "Volume"),
        action(1, "CC 7", "Zoom"),
        action(0, "Note 7", "Record"),
        action(0, "CC 7", "Other"),
    ];
    assert_eq!(midi::find_action(cc(7), 0, &table), Some(text("Volume")));
    assert_eq!(midi::find_action(cc(7), 1, &table), Some(text("Zoom")));
    assert_eq!(midi::find_action(note(7), 0, &table), Some(text("Record")));
    assert_eq!(midi::find_action(cc(8), 0, &table), None);
}

#[test]
fn tooltips_tell_all() {
    let ctrl = ControlDef { id: text("knob1"), label: text("K1"), midi_key: cc(16) };
    assert_eq!(midi::build_tooltip(&ctrl, &None, &None, 0), "knob1 (K1)\nMIDI: ch0 CC 16");
    assert_eq!(
        midi::build_tooltip(&ctrl, &Some(text("Volume")), &Some(text("vol")), 2),
        "knob1 (K1)\nMIDI: ch0 CC 16\nAction (page 2): Volume\nUI knob binding: vol"
    );
}

#[test]
fn actions_are_shortened() {
    assert_eq!(midi::short_action("Frequency", 8), "Frequenc");
    assert_eq!(midi::short_action("Zoom", 8), "Zoom");
    assert_eq!(midi::short_action("ÄÖÜäöü", 3), "ÄÖÜ");
}

#[test]
fn controls_show_their_state() {
    let mut s = shared(&[(16, "vol")]);
    let table = vec![action(0, "CC 17", "Zoom")];
    let pulse = Pulse { pending: 99, learn: 10 };
    let ctrl = |key: MidiKey| ControlDef { id: text("c"), label: text("C"), midi_key: key };
    let f = midi::control_face(&ctrl(cc(16)), 0, &table, &s, pulse);
    assert_eq!(f.knob, Some(text("vol")));
    assert_eq!(f.action, None);
    assert_eq!(f.colors.fill, theme::rgb(theme::ACCENT_DIM));
    let f = midi::control_face(&ctrl(note(16)), 0, &table, &s, pulse);
    assert_eq!(f.knob, None);
    assert_eq!(f.colors.width, 10);
    let f = midi::control_face(&ctrl(cc(17)), 0, &table, &s, pulse);
    assert_eq!(f.action, Some(text("Zoom")));
    assert_eq!(f.colors.fill, Color::from_rgb(30, 70, 50));
    s.midi_learn_target = Some(text("vol"));
    let f = midi::control_face(&ctrl(cc(18)), 0, &table, &s, pulse);
    assert_eq!(f.colors.border, Color { r: 255, g: 190, b: 40, a: 60 });
    s.midi_map_pending = Some(18);
    let f = midi::control_face(&ctrl(cc(18)), 0, &table, &s, pulse);
    assert_eq!(f.colors.fill, Color { r: 80, g: 60, b: 0, a: 99 });
    assert_eq!(f.colors.width, 20);
    assert_eq!(midi::derive_state(cc(16), &s.midi_cc_to_knob, true), ControlState::Mapped);
    assert_eq!(midi::derive_state(note(16), &s.midi_cc_to_knob, true), ControlState::ActionBound);
}

#[test]
fn gestures_bind_and_unmap() {
    let mut s = shared(&[(16, "vol")]);
    midi::control_gesture(&mut s, 16, ControlGesture::Click);
    assert_eq!(s.midi_map_pending, Some(16));
    assert_eq!(midi::bind_caption(s.midi_map_pending, 16), "Cancel pending bind");
    midi::control_gesture(&mut s, 16, ControlGesture::ToggleBind);
    assert_eq!(s.midi_map_pending, None);
    assert_eq!(midi::bind_caption(s.midi_map_pending, 16), "Map to UI control…");
    midi::control_gesture(&mut s, 16, ControlGesture::ToggleBind);
    assert_eq!(s.midi_map_pending, Some(16));
    midi::control_gesture(&mut s, 16, ControlGesture::Unmap);
    assert!(s.midi_cc_to_knob.is_empty());
}

#[test]
fn bindings_survive_export_and_import() {
    let pairs = [(0u8, "tab\tand \"quotes\""), (7, "volume"), (255, "größe"), (16, "")];
    let s = shared(&pairs);
    let mut w = MidiMapperWindow::new_nanokontrol2("/tmp/map.json");
    let json = w.begin_export(&s).unwrap();
    assert!(json.starts_with('{'));
    assert!(json.contains("\n  \"volume\": 7"));
    assert!(w.io_status.is_none());
    let mut t = shared(&[(3, "old")]);
    w.import(&mut t, Ok(json));
    assert_eq!(t.midi_cc_to_knob, s.midi_cc_to_knob);
    let status = w.io_status.unwrap();
    assert_eq!((status.message.as_str(), status.is_error), ("Bindings loaded.", false));
}

#[test]
fn each_knob_is_exported_once() {
    let s = shared(&[(1, "a"), (2, "a"), (3, "b")]);
    let listed = bindings::invert(&s.midi_cc_to_knob);
    assert_eq!(listed.len(), 2);
    let json = midi::export_text(&s.midi_cc_to_knob).unwrap();
    let back: HashMap<String, u8> = serde_json::from_str(&json).unwrap();
    assert_eq!(back.len(), 2);
    assert_eq!(back["b"], 3);
    assert!(back["a"] == 1 || back["a"] == 2);
    assert_eq!(bindings::find_cc(&s.midi_cc_to_knob, "a"), Some(1));
    assert_eq!(bindings::find_cc(&s.midi_cc_to_knob, "c"), None);
}

#[test]
fn bad_files_are_reported() {
    let mut w = MidiMapperWindow::new_nanokontrol2("/tmp/map.json");
    let mut s = shared(&[(3, "old")]);
    w.import(&mut s, Ok(text("{\"volume\": 300}")));
    let status = w.io_status.as_ref().unwrap();
    assert!(status.is_error);
    let reason = serde_json::from_str::<HashMap<String, u8>>("{\"volume\": 300}").unwrap_err();
    assert_eq!(status.message, format!("Invalid JSON: {reason}"));
    assert_eq!(s.midi_cc_to_knob[&3], "old");
    w.import(&mut s, Err(text("no such file")));
    assert_eq!(w.io_status.as_ref().unwrap().message, "Read failed: no such file");
    w.take_bindings(
        &mut s,
        Ok(vec![Binding { knob: text("a"), cc: 5 }, Binding { knob: text("b"), cc: 6 }]),
    );
    assert_eq!(s.midi_cc_to_knob.len(), 2);
    assert_eq!(s.midi_cc_to_knob[&6], "b");
    w.take_bindings(&mut s, Err(text("reason")));
    assert_eq!(w.io_status.as_ref().unwrap().message, "Invalid JSON: reason");
    assert_eq!(s.midi_cc_to_knob.len(), 2);
}

#[test]
fn saving_is_reported() {
    let mut w = MidiMapperWindow::new_nanokontrol2("/tmp/map.json");
    w.finish_export(Ok(()));
    let status = w.io_status.as_ref().unwrap();
    assert_eq!((status.message.as_str(), status.is_error), ("Saved to /tmp/map.json", false));
    w.finish_export(Err(text("disk full")));
    let status = w.io_status.as_ref().unwrap();
    assert_eq!((status.message.as_str(), status.is_error), ("Save failed: disk full", true));
}

#[test]
fn a_reset_asks_first() {
    let mut w = MidiMapperWindow::new_nanokontrol2("m.json");
    let mut s = shared(&[(3, "old")]);
    s.midi_map_pending = Some(3);
    w.ask_reset();
    assert!(w.confirm_reset && w.io_status.is_none());
    w.answer_reset(&mut s, false);
    assert!(!w.confirm_reset);
    assert_eq!(s.midi_cc_to_knob.len(), 1);
    w.ask_reset();
    w.answer_reset(&mut s, true);
    assert!(s.midi_cc_to_knob.is_empty());
    assert_eq!(s.midi_map_pending, None);
    assert_eq!(w.io_status.unwrap().message, "MIDI-learn bindings cleared.");
}

#[test]
fn knobs_show_their_controller() {
    let mut s = shared(&[(9, "vol"), (4, "vol")]);
    let k = knob_binding::knob_midi(&s, "vol");
    assert_eq!(k.cc, Some(4));
    assert!(!k.learning);
    s.midi_learn_target = Some(text("vol"));
    assert!(knob_binding::knob_midi(&s, "vol").learning);
    assert!(!knob_binding::knob_midi(&s, "zoom").learning);
}
