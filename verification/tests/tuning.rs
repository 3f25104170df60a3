//! Frequencies: readout, entry, steps and labels.

use sdrapp_ui::frequency;
use sdrapp_ui::frequency::format_frequency;
use sdrapp_ui::frequency::parse_frequency;
use sdrapp_ui::frequency::DisplayInput;
use sdrapp_ui::frequency::EditInput;
use sdrapp_ui::frequency::FrequencyWidget;
use sdrapp_ui::frequency::Scroll;
use sdrapp_ui::frequency::TuneStep;
use sdrapp_ui::spectrum;
use sdrapp_ui::spectrum::format_freq_cursor;
use sdrapp_ui::spectrum::format_freq_short;
use sdrapp_ui::spectrum::DbLine;
use sdrapp_ui::level::Level;
use sdrapp_ui::status;
use sdrapp_ui::theme;
use sdrapp_ui::tuning;

#[test]
fn format_100mhz() {
    assert_eq!(format_frequency(100_000_000), "100.000 000 MHz");
}

#[test]
fn format_162_425_mhz() {
    assert_eq!(format_frequency(162_425_000), "162.425 000 MHz");
}

#[test]
fn format_137_912_500_hz() {
    assert_eq!(format_frequency(137_912_500), "137.912 500 MHz");
}

#[test]
fn format_1_42_ghz() {
    assert_eq!(format_frequency(1_420_000_000), "1.420 GHz");
}

#[test]
fn format_small_frequencies() {
    assert_eq!(format_frequency(0), "  0.000 000 MHz");
    assert_eq!(format_frequency(7_123_456), "  7.123 456 MHz");
    assert_eq!(format_frequency(999_999_999), "999.999 999 MHz");
}

#[test]
fn parse_mhz_float() {
    assert_eq!(parse_frequency("162.425"), Some(162_425_000));
}

#[test]
fn parse_mhz_with_suffix() {
    assert_eq!(parse_frequency("162.425 MHz"), Some(162_425_000));
    assert_eq!(parse_frequency("162.425MHz"), Some(162_425_000));
}

#[test]
fn parse_bare_integer_mhz() {
    assert_eq!(parse_frequency("162"), Some(162_000_000));
}

#[test]
fn parse_hz_integer() {
    assert_eq!(parse_frequency("162425000"), Some(162_425_000));
}

#[test]
fn parse_khz_suffix() {
    assert_eq!(parse_frequency("162425 kHz"), Some(162_425_000));
}

#[test]
fn parse_other_entries() {
    assert_eq!(parse_frequency("  1.42 ghz "), Some(1_420_000_000));
    assert_eq!(parse_frequency("500 Hz"), Some(500));
    assert_eq!(parse_frequency(""), None);
    assert_eq!(parse_frequency("MHz"), None);
    assert_eq!(parse_frequency("12a"), None);
    assert_eq!(parse_frequency("1e2"), None);
    assert_eq!(parse_frequency("1e2 MHz"), Some(100_000_000));
    assert_eq!(parse_frequency("162425"), Some(162_425_000));
    assert_eq!(parse_frequency("0"), None);
    assert_eq!(parse_frequency("0.0000001"), None);
    assert_eq!(parse_frequency("-5 MHz"), None);
    assert_eq!(parse_frequency("100.0000005"), Some(100_000_001));
}

#[test]
fn parse_agrees_with_double_precision() {
    let mut k: u64 = 7;
    for _ in 0..400 {
        k = k.wrapping_mul(6364136223846793005).wrapping_add(1442695040888963407);
        let n = k >> 44;
        for s in [format!("{}.{:03}", n / 1000, n % 1000), format!("0.{n:07}"), format!("{n}e-3")] {
            let x: f64 = s.parse().unwrap();
            let expected = (x * 1e6).round() as u64;
            assert_eq!(parse_frequency(&format!("{s} MHz")), Some(expected), "{s}");
        }
    }
}

#[test]
fn scroll_up_increases_frequency() {
    let delta = TuneStep::default_for_scroll();
    let new_freq = (100_000_000_i64 + delta).max(1) as u64;
    assert_eq!(new_freq, 100_010_000);
}

#[test]
fn frequency_does_not_go_below_one() {
    let w = FrequencyWidget::new(500);
    let delta: i64 = -1_000_000;
    let new = (w.frequency_hz as i64 + delta).max(1) as u64;
    assert_eq!(new, 1);
    assert_eq!(tuning::move_by(w.frequency_hz, delta), 1);
}

fn idle() -> DisplayInput {
    DisplayInput {
        hovered_digit: None,
        in_widget: false,
        clicked: false,
        any_click: false,
        double_clicked: false,
        scroll: Scroll::Idle,
        arrow_up: false,
        arrow_down: false,
    }
}

#[test]
fn digits_are_scrolled() {
    let mut w = FrequencyWidget::new(100_000_000);
    let over_first = DisplayInput { hovered_digit: Some(0), in_widget: true, ..idle() };
    let r = w.show_normal(DisplayInput { scroll: Scroll::Up, ..over_first });
    assert_eq!(r.new_freq, Some(200_000_000));
    assert_eq!(w.active_digit, Some(0));
    let last = DisplayInput { hovered_digit: Some(8), in_widget: true, ..idle() };
    let r = w.show_normal(DisplayInput { scroll: Scroll::Down, ..last });
    assert_eq!(r.new_freq, Some(199_999_999));
    let r = w.show_normal(DisplayInput { scroll: Scroll::Up, ..idle() });
    assert_eq!(r.new_freq, None);
}

#[test]
fn digits_stop_at_one_hertz() {
    let mut w = FrequencyWidget::new(5_000);
    let over = DisplayInput { hovered_digit: Some(0), in_widget: true, ..idle() };
    let r = w.show_normal(DisplayInput { scroll: Scroll::Down, ..over });
    assert_eq!(r.new_freq, Some(1));
    assert_eq!(w.clamped_ticks, frequency::CLAMP_TICKS - 1);
    assert!(r.repaint);
    assert_eq!(w.background(), theme::rgb(frequency::FREQ_BG_CLAMPED));
    let r = w.show_normal(DisplayInput { scroll: Scroll::Down, ..over });
    assert_eq!(r.new_freq, None);
    assert_eq!(w.frequency_hz, 1);
    assert!(r.repaint);
}

#[test]
fn arrows_move_the_clicked_digit() {
    let mut w = FrequencyWidget::new(100_000_000);
    let r = w.show_normal(DisplayInput { arrow_up: true, ..idle() });
    assert_eq!(r.new_freq, None);
    w.show_normal(DisplayInput {
        clicked: true,
        any_click: true,
        hovered_digit: Some(2),
        in_widget: true,
        ..idle()
    });
    assert!(w.has_keyboard_focus);
    let r = w.show_normal(DisplayInput { arrow_up: true, ..idle() });
    assert_eq!(r.new_freq, Some(101_000_000));
    w.show_normal(DisplayInput { any_click: true, ..idle() });
    assert!(!w.has_keyboard_focus);
}

#[test]
fn a_double_click_opens_the_entry() {
    let mut w = FrequencyWidget::new(162_425_000);
    w.show_normal(DisplayInput { double_clicked: true, in_widget: true, ..idle() });
    assert!(w.editing);
    assert_eq!(w.edit_text, "162.425");
    let text = w.edit_text.clone();
    let edit = EditInput { text, enter: true, escape: false, lost_focus: false };
    let r = w.show(idle(), edit);
    assert_eq!(r.new_freq, None);
    assert_eq!(w.frequency_hz, 162_425_000);
    assert!(!w.editing);
    w.editing = true;
    let text = String::from("162.55");
    let edit = EditInput { text, enter: true, escape: false, lost_focus: false };
    assert_eq!(w.show(idle(), edit).new_freq, Some(162_550_000));
    assert_eq!(w.frequency_hz, 162_550_000);
}

#[test]
fn escape_keeps_the_frequency() {
    let mut w = FrequencyWidget::new(162_425_000);
    w.editing = true;
    let edit = EditInput { text: String::from("99"), enter: false, escape: true, lost_focus: false };
    assert_eq!(w.show_edit(edit), None);
    assert_eq!(w.frequency_hz, 162_425_000);
    assert!(!w.editing);
}

#[test]
fn readout_positions() {
    assert_eq!(frequency::digit_at_char(0), Some(0));
    assert_eq!(frequency::digit_at_char(3), None);
    assert_eq!(frequency::digit_at_char(4), Some(3));
    assert_eq!(frequency::digit_at_char(10), Some(8));
    assert_eq!(frequency::digit_at_char(11), None);
    for d in 0..9 {
        assert_eq!(frequency::digit_at_char(frequency::char_of_digit(d)), Some(d));
    }
    assert_eq!(frequency::digit_step_hz(0), 100_000_000);
    assert_eq!(frequency::digit_step_hz(8), 1);
    assert_eq!(frequency::step_label(10_000), "10 kHz");
}

// ── Labels ──────────────────────────────────────────────────────────────────

#[test]
fn format_freq_short_cases() {
    assert_eq!(format_freq_short(100_000_000), "100.00M");
    assert_eq!(format_freq_short(1_420_000_000), "1.42G");
    assert_eq!(format_freq_short(162_000), "162k");
    assert_eq!(format_freq_short(500), "500");
}

#[test]
fn labels_agree_with_double_precision() {
    let mut k: u64 = 3;
    for i in 0..2000u32 {
        k = k.wrapping_mul(6364136223846793005).wrapping_add(1442695040888963407);
        let hz = k >> (i % 60);
        let f = hz as f64;
        let short = if hz >= 1_000_000_000 {
            format!("{:.2}G", f / 1e9)
        } else if hz >= 1_000_000 {
            format!("{:.2}M", f / 1e6)
        } else if hz >= 1_000 {
            format!("{:.0}k", f / 1e3)
        } else {
            format!("{hz}")
        };
        assert_eq!(format_freq_short(hz), short);
        let cursor = if hz >= 1_000_000_000 {
            format!("{:.4} GHz", f / 1e9)
        } else if hz >= 1_000_000 {
            format!("{:.3} MHz", f / 1e6)
        } else if hz >= 1_000 {
            format!("{:.1} kHz", f / 1e3)
        } else {
            format!("{hz} Hz")
        };
        assert_eq!(format_freq_cursor(hz), cursor);
        let panel = if hz >= 1_000_000_000 {
            format!("{:.3} GHz", f / 1e9)
        } else if hz >= 1_000_000 {
            format!("{:.3} MHz", f / 1e6)
        } else if hz >= 1_000 {
            format!("{:.1} kHz", f / 1e3)
        } else {
            format!("{hz} Hz")
        };
        assert_eq!(status::format_frequency(hz), panel);
    }
    assert_eq!(format_freq_cursor(1_250), "1.2 kHz");
    assert_eq!(format_freq_cursor(1_350), "1.4 kHz");
}

#[test]
fn status_texts() {
    assert_eq!(
        status::summary("RSPdx", 2_048_000, 100_000_000, true),
        "◈  RSPdx  ·  2.0 Msps  ·  100.000 MHz  ST"
    );
    assert_eq!(status::rate_label(62_500), "62 ksps");
    assert_eq!(status::rate_label(999), "999 sps");
    let b = status::midi_badge(&Some(String::from("nK2")), 1);
    assert_eq!(b.text, "MIDI: nK2  P1:Monitor");
    assert_eq!(b.color, theme::rgb(theme::MIDI_PAGE_1));
    assert_eq!(status::midi_badge(&Some(String::from("nK2")), 4).text, "MIDI: nK2  P4:?");
    assert_eq!(status::midi_badge(&None, 0).text, "MIDI: —");
    assert_eq!(status::running_badge(true).text, "●");
    assert_eq!(status::running_badge(false).color, theme::rgb(theme::TEXT_DISABLED));
    let fill = |x: f32| Level { bits: x.to_bits() };
    assert_eq!(status::buffer_color(fill(0.8)), theme::rgb(theme::STATUS_OK));
    assert_eq!(status::buffer_color(fill(0.81)), theme::rgb(theme::STATUS_WARN));
}

// ── Grid ────────────────────────────────────────────────────────────────────

#[test]
fn grid_steps() {
    assert_eq!(spectrum::grid_step(2_000_000), 200_000);
    assert_eq!(spectrum::grid_step(10_000_000), 1_000_000);
    assert_eq!(spectrum::grid_step(4_000_000), 500_000);
    assert_eq!(spectrum::grid_step(8), 1);
    assert_eq!(spectrum::grid_step(3), 1);
    assert_eq!(spectrum::grid_step(0), 1);
}

#[test]
fn grid_steps_agree_with_double_precision() {
    let mut k: u64 = 11;
    for i in 0..3000u32 {
        k = k.wrapping_mul(6364136223846793005).wrapping_add(1442695040888963407);
        let span = (k >> (24 + i % 36)).max(1);
        let raw = span as f64 / 8.0;
        let magnitude = 10_f64.powf(raw.log10().floor());
        let nice = if raw / magnitude >= 5.0 {
            5.0 * magnitude
        } else if raw / magnitude >= 2.0 {
            2.0 * magnitude
        } else {
            magnitude
        };
        assert_eq!(spectrum::grid_step(span) as f64, nice.max(1.0), "span {span}");
    }
}

#[test]
fn grid_lines_fill_the_view() {
    let lines = spectrum::grid_lines(99_000_000, 101_000_000, 200_000);
    let freqs: Vec<u64> = lines.iter().map(|l| l.freq_hz).collect();
    assert_eq!(freqs.len(), 11);
    assert_eq!(freqs[0], 99_000_000);
    assert_eq!(freqs[10], 101_000_000);
    assert!(lines[0].major);
    assert!(!lines[1].major);
    assert!(lines[0].labelled && lines[5].labelled && !lines[1].labelled);
    // Lines at the very edges are labelled though they are not major ones.
    let lines = spectrum::grid_lines(200, 400, 100);
    assert_eq!(lines.len(), 3);
    assert!(!lines[0].major && lines[0].labelled);
    assert!(!lines[1].labelled);
    assert!(lines[2].labelled);
    assert!(spectrum::grid_lines(201, 299, 100).is_empty());
}

#[test]
fn marks_near_the_tuned_frequency() {
    assert!(spectrum::mark_is_vfo(100_000, 100_009, 100));
    assert!(!spectrum::mark_is_vfo(100_000, 100_010, 100));
    assert!(spectrum::mark_is_vfo(100_009, 100_000, 100));
    assert_eq!(spectrum::marks_in_view(&vec![5, 10, 20, 25], 10, 20), vec![10, 20]);
    assert!(spectrum::band_in_view(5, 11, 10, 20));
    assert!(!spectrum::band_in_view(5, 10, 10, 20));
    assert!(!spectrum::band_in_view(20, 30, 10, 20));
}

#[test]
fn power_grid() {
    let range = |x: f32| Level { bits: x.to_bits() };
    assert_eq!(spectrum::db_step(range(40.0)), 5);
    assert_eq!(spectrum::db_step(range(40.5)), 10);
    assert_eq!(spectrum::db_step(range(100.0)), 10);
    assert_eq!(spectrum::db_step(range(120.0)), 20);
    assert_eq!(
        spectrum::db_lines(10, -3, 0),
        vec![
            DbLine { db: -30, major: false },
            DbLine { db: -20, major: true },
            DbLine { db: -10, major: false },
            DbLine { db: 0, major: true },
        ]
    );
    assert!(spectrum::db_lines(5, 2, 1).is_empty());
}

#[test]
fn the_trace_is_filled_by_triangles() {
    assert_eq!(spectrum::trace_fill(3), vec![0, 1, 2, 1, 3, 2, 2, 3, 4, 3, 5, 4]);
    assert!(spectrum::trace_fill(1).is_empty());
    assert!(spectrum::trace_fill(0).is_empty());
}

#[test]
fn steps_beyond_the_signed_range_are_not_accepted() {
    let w = FrequencyWidget::new(i64::MAX as u64);
    let over = DisplayInput { hovered_digit: Some(8), in_widget: true, ..idle() };
    assert!(w.accepts(over));
    assert!(w.accepts(DisplayInput { scroll: Scroll::Down, ..over }));
    assert!(!w.accepts(DisplayInput { scroll: Scroll::Up, ..over }));
    assert!(w.accepts(DisplayInput { scroll: Scroll::Up, double_clicked: true, ..over }));
}

#[test]
fn the_tuned_frequency_has_its_place() {
    assert_eq!(spectrum::place_in_view(150, 100, 300), Some((50, 200)));
    assert_eq!(spectrum::place_in_view(50, 100, 300), Some((0, 200)));
    assert_eq!(spectrum::place_in_view(500, 100, 300), Some((200, 200)));
    assert_eq!(spectrum::place_in_view(100, 100, 100), None);
    assert!(spectrum::hold_is_drawn(Some(8), 8));
    assert!(!spectrum::hold_is_drawn(Some(7), 8));
    assert!(!spectrum::hold_is_drawn(Some(1), 1));
    assert!(!spectrum::hold_is_drawn(None, 8));
}
