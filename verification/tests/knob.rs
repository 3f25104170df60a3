//! Knobs.

use sdrapp_ui::knob;
use sdrapp_ui::knob::Knob;
use sdrapp_ui::level::Level;
use sdrapp_ui::reading;

fn lvl(x: f32) -> Level {
    Level { bits: x.to_bits() }
}

fn value(k: &Knob) -> f32 {
    f32::from_bits(k.value.bits)
}

fn unit_knob(value: f32, default_value: f32) -> Knob {
    Knob { value: lvl(value), min: lvl(0.0), max: lvl(1.0), default_value: lvl(default_value) }
}

#[test]
fn drag_increases_value_upward() {
    let drag_delta_y: f32 = -100.0;
    let delta_px = -drag_delta_y;
    let min = 0.0_f32;
    let max = 1.0_f32;
    let old = 0.3_f32;
    let delta_val = delta_px / knob::DRAG_FULL_PX as f32 * (max - min);
    let mut k = unit_knob(old, 0.5);
    k.turn_to(lvl(old + delta_val));
    let new = value(&k);
    assert!((new - 0.8).abs() < 0.01, "expected ~0.8 got {new}");
}

#[test]
fn double_click_resets_to_default() {
    let mut k = unit_knob(0.9, 0.5);
    k.reset();
    assert!((value(&k) - 0.5).abs() < f32::EPSILON);
}

#[test]
fn knobs_stop_at_their_ends() {
    let mut k = unit_knob(0.9, 7.0);
    k.turn_to(lvl(1.5));
    assert_eq!(value(&k), 1.0);
    k.turn_to(lvl(-0.1));
    assert_eq!(value(&k), 0.0);
    k.reset();
    assert_eq!(value(&k), 1.0);
}

#[test]
fn knob_captions() {
    assert_eq!(knob::cc_label(7), "CC 7");
    assert_eq!(knob::tooltip(lvl(-34.0), "dB"), "-34.0 dB");
    assert_eq!(knob::tooltip(lvl(0.8), ""), "0.8");
    assert_eq!(knob::extra_height(true, true), 30);
    assert_eq!(knob::extra_height(false, false), 4);
}

#[test]
fn levels_are_written_as_single_precision_is() {
    let mut bits: u32 = 0;
    for i in 0..200_000u32 {
        bits = bits.wrapping_mul(1_664_525).wrapping_add(1_013_904_223 + i);
        let x = f32::from_bits(bits);
        if x.is_nan() {
            continue;
        }
        let mut s = String::new();
        reading::push_level(&mut s, lvl(x), 1);
        assert_eq!(s, format!("{x:.1}"));
    }
    for x in [0.0f32, -0.0, 0.05, 0.25, 0.35, -0.04, 0.15, 2.5, 1e10, f32::MAX, f32::INFINITY] {
        for places in [1, 2, 3, 9] {
            let mut s = String::new();
            reading::push_level(&mut s, lvl(x), places);
            assert_eq!(s, format!("{x:.places$}"));
        }
    }
    let mut s = String::new();
    reading::push_level(&mut s, lvl(f32::NAN), 1);
    assert_eq!(s, "NaN");
}
