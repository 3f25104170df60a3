//! Colours, waterfall and signal analysis.

use sdrapp_ui::level;
use sdrapp_ui::level::Level;
use sdrapp_ui::signal;
use sdrapp_ui::theme;
use sdrapp_ui::theme::Color;
use sdrapp_ui::waterfall;
use sdrapp_ui::waterfall::WaterfallWidget;

fn lvl(x: f32) -> Level {
    Level { bits: x.to_bits() }
}

fn levels(xs: &[f32]) -> Vec<Level> {
    xs.iter().map(|&x| lvl(x)).collect()
}

/// The colormap entry of a power in a display range.
fn entry(db: f32, range: (f32, f32)) -> u8 {
    let t = ((db - range.0) / (range.1 - range.0)).clamp(0.0, 1.0);
    (t * 255.0) as u8
}

#[test]
fn colormap_has_256_entries() {
    let lut = theme::waterfall_colormap();
    assert_eq!(lut.len(), 256);
}

#[test]
fn colormap_first_entry_is_dark() {
    let lut = theme::waterfall_colormap();
    let r = lut[0].r();
    let g = lut[0].g();
    let b = lut[0].b();
    assert!(r < 30 && g < 30 && b < 50, "noise floor should be dark, got ({r},{g},{b})");
}

#[test]
fn colormap_last_entry_is_bright() {
    let lut = theme::waterfall_colormap();
    let c = lut[255];
    assert!(c.r() > 200 || c.g() > 200 || c.b() > 200, "peak should be bright");
}

#[test]
fn midi_page_color_wraps() {
    assert_eq!(theme::midi_page_color(0), theme::rgb(theme::MIDI_PAGE_0));
    assert_eq!(theme::midi_page_color(3), theme::rgb(theme::MIDI_PAGE_0));
    assert_eq!(theme::midi_page_color(1), theme::rgb(theme::MIDI_PAGE_1));
    assert_eq!(theme::midi_page_color(2), theme::rgb(theme::MIDI_PAGE_2));
}

fn mix(a: u8, b: u8, t: f32) -> u8 {
    (a as f32 + (b as f32 - a as f32) * t.clamp(0.0, 1.0)) as u8
}

#[test]
fn colormap_is_that_of_single_precision() {
    let stops: [(f32, u32); 9] = [
        (0.0, 0x020208),
        (0.28, 0x050A37),
        (0.46, 0x0C2891),
        (0.56, 0x0578C3),
        (0.66, 0x00D2B4),
        (0.77, 0x28D737),
        (0.86, 0xFAD700),
        (0.94, 0xFF6400),
        (1.0, 0xFFFFFF),
    ];
    let lut = theme::waterfall_colormap();
    for i in 0..256usize {
        let t = i as f32 / 255.0;
        let j = (0..8).find(|&j| t >= stops[j].0 && t <= stops[j + 1].0).unwrap();
        let (t0, c0) = stops[j];
        let (t1, c1) = stops[j + 1];
        let at = (t - t0) / (t1 - t0);
        let (a, b) = (theme::rgb(c0), theme::rgb(c1));
        let expected =
            Color::from_rgb(mix(a.r(), b.r(), at), mix(a.g(), b.g(), at), mix(a.b(), b.b(), at));
        assert_eq!(lut[i], expected, "entry {i}");
    }
}

#[test]
fn simple_colormap_is_that_of_single_precision() {
    let lut = waterfall::build_simple_colormap();
    assert_eq!(lut.len(), 256);
    for i in 0..256usize {
        let t = i as f32 / 255.0;
        let (r, g, b) = if t < 0.33 {
            let s = t / 0.33;
            (0_u8, (s * 180.0) as u8, (50.0 + s * 205.0) as u8)
        } else if t < 0.66 {
            let s = (t - 0.33) / 0.33;
            ((s * 255.0) as u8, 180_u8, (255.0 - s * 255.0) as u8)
        } else {
            let s = (t - 0.66) / 0.34;
            (255_u8, (180.0 + s * 75.0) as u8, (s * 255.0) as u8)
        };
        assert_eq!(lut[i], Color::from_rgb(r, g, b), "entry {i}");
    }
}

#[test]
fn push_row_shifts_history() {
    let range = (-120.0, 0.0);
    let mut wf = WaterfallWidget::new(8);
    let row1: Vec<u8> = vec![entry(-60.0, range); 8];
    wf.push_row(&row1);
    let row2: Vec<u8> = vec![entry(-20.0, range); 8];
    wf.push_row(&row2);
    let r0 = &wf.pixels[0..4];
    let r1 = &wf.pixels[wf.width * 4..wf.width * 4 + 4];
    assert_ne!(r0, r1, "rows should differ after pushing different dBFS levels");
}

#[test]
fn push_row_bright_above_noise() {
    let range = (-120.0, 0.0);
    let mut wf = WaterfallWidget::new(8);
    wf.push_row(&vec![entry(0.0, range); 8]);
    let bright: u32 = wf.pixels[0..3].iter().map(|&v| v as u32).sum();
    let mut wf2 = WaterfallWidget::new(8);
    wf2.push_row(&vec![entry(-120.0, range); 8]);
    let dark: u32 = wf2.pixels[0..3].iter().map(|&v| v as u32).sum();
    assert!(bright > dark, "0 dBFS should be brighter than -120 dBFS: {bright} vs {dark}");
}

#[test]
fn viridis_colormap_extremes() {
    let lut = theme::waterfall_colormap();
    let dark_sum: u32 = [lut[0].r(), lut[0].g(), lut[0].b()].iter().map(|&v| v as u32).sum();
    let bright_sum: u32 =
        [lut[255].r(), lut[255].g(), lut[255].b()].iter().map(|&v| v as u32).sum();
    assert!(bright_sum > dark_sum, "viridis max should be brighter than min");
}

#[test]
fn rows_are_stretched_and_scroll_down() {
    let mut wf = WaterfallWidget::new_with_colormap(4);
    let lut = theme::waterfall_colormap();
    wf.push_row(&[10, 200]);
    for (x, level) in [10usize, 10, 200, 200].into_iter().enumerate() {
        assert_eq!(
            wf.pixels[4 * x..4 * x + 4],
            [lut[level].r(), lut[level].g(), lut[level].b(), 255]
        );
    }
    let first: Vec<u8> = wf.pixels[0..16].to_vec();
    wf.push_row(&[255]);
    assert_eq!(wf.pixels[16..32].to_vec(), first);
    assert_eq!(wf.pixels[0..4], [255, 255, 255, 255]);
    wf.clear();
    assert!(wf.pixels.iter().all(|&b| b == 0));
    assert_eq!(wf.pixels.len(), 4 * 4 * waterfall::WATERFALL_HEIGHT);
}

// ── Levels ──────────────────────────────────────────────────────────────────

#[test]
fn levels_are_ordered_as_numbers() {
    let xs = [
        f32::NEG_INFINITY, -1e30, -1.5, -1e-40, -0.0, 0.0, 1e-40, 0.25, 1.0, 3e38, f32::INFINITY,
        f32::NAN,
    ];
    for &a in &xs {
        for &b in &xs {
            assert_eq!(lvl(a).lt(lvl(b)), a < b, "{a} < {b}");
            assert_eq!(lvl(a).ge(lvl(b)), a >= b, "{a} >= {b}");
        }
    }
    assert_eq!(lvl(2.0).clamp(lvl(0.0), lvl(1.0)), lvl(1.0));
    assert_eq!(level::of(level::ONE_BITS), lvl(1.0));
    assert_eq!(level::of(level::DEFAULT_VOLUME_BITS), lvl(0.8));
    assert_eq!(level::of(level::SILENT_VOLUME_BITS), lvl(0.01));
    assert_eq!(level::of(level::MIN_ZOOM_BITS), lvl(0.005));
    assert_eq!(level::of(level::DEFAULT_SQUELCH_BITS), lvl(-50.0));
}

// ── Signal ──────────────────────────────────────────────────────────────────

#[test]
fn the_kth_level_in_order() {
    let data = levels(&[-50.0, -90.0, -70.0, -90.0, -10.0]);
    assert_eq!(signal::kth(&data, 0), lvl(-90.0));
    assert_eq!(signal::kth(&data, 2), lvl(-70.0));
    assert_eq!(signal::kth(&data, 4), lvl(-10.0));
    assert_eq!(signal::kth(&levels(&[-1.0, -0.0]), 1), lvl(-0.0));
}

#[test]
fn peaks_stand_out() {
    let mut xs = [-100.0f32; 64];
    xs[20] = -40.0;
    xs[21] = -45.0;
    xs[50] = -60.0;
    let peaks = signal::detect_peaks(&levels(&xs), lvl(-80.0));
    assert!(peaks.contains(&20));
    assert!(peaks.contains(&50));
    assert!(!peaks.contains(&21));
    assert!(signal::detect_peaks(&levels(&xs), lvl(-20.0)).is_empty());
    assert!(!signal::detect_peaks(&levels(&xs), lvl(-60.0)).contains(&50));
    xs[51] = -60.0;
    assert_eq!(signal::detect_peaks(&levels(&xs), lvl(-80.0)), vec![20]);
}

#[test]
fn clicks_snap_to_the_strongest_bin_nearby() {
    let mut xs = [-100.0f32; 64];
    xs[33] = -40.0;
    assert_eq!(signal::snap_bin(&levels(&xs), 30, lvl(-80.0)), Some(33));
    assert_eq!(signal::snap_bin(&levels(&xs), 30, lvl(-20.0)), None);
}

#[test]
fn peaks_are_held() {
    let hold = signal::fresh_peak_hold(3);
    assert_eq!(hold, levels(&[-120.0, -120.0, -120.0]));
    let now = levels(&[-50.0, -119.5, -130.0]);
    let decayed = levels(&[-120.5, -120.5, -120.5]);
    assert_eq!(
        signal::update_peak_hold(&hold, &now, &decayed, true),
        levels(&[-50.0, -119.5, -120.5])
    );
    assert!(signal::any_active(&now));
    assert!(!signal::any_active(&levels(&[-119.0, -120.0])));
}

#[test]
fn the_range_is_sampled_near_its_ends() {
    let xs: Vec<f32> = (1..=100).map(|i| -(i as f32)).collect();
    assert_eq!(signal::range_samples(&levels(&xs)), Some((lvl(-90.0), lvl(-1.0))));
    assert_eq!(signal::noise_floor(&levels(&xs)), lvl(-80.0));
    assert_eq!(signal::range_samples(&levels(&xs[..9])), None);
    let ten = levels(&xs[..10]);
    assert_eq!(signal::range_samples(&ten), Some((lvl(-9.0), lvl(-1.0))));
    assert_eq!(signal::noise_floor(&ten), lvl(-8.0));
    assert_eq!(signal::noise_floor(&levels(&[-3.0])), lvl(-3.0));
}
