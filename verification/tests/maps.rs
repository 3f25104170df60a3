//! The aircraft map and the satellite map.

use sdrapp_ui::adsb_map::AdsbMapWindow;
use sdrapp_ui::aircraft;
use sdrapp_ui::aircraft::AircraftTrail;
use sdrapp_ui::aircraft::Position;
use sdrapp_ui::adsb_map;
use sdrapp_ui::degrees::Degrees;
use sdrapp_ui::level::Level;
use sdrapp_ui::sat_map;
use sdrapp_ui::sat_map::SatMapWindow;
use sdrapp_ui::sat_map::TileKey;
use sdrapp_ui::sat_map::TleEntry;
use sdrapp_ui::single::Single;
use sdrapp_ui::theme;
use sdrapp_ui::theme::Color;

fn deg(x: f64) -> Degrees {
    Degrees { bits: x.to_bits() }
}

fn lvl(x: f32) -> Level {
    Level { bits: x.to_bits() }
}

fn at(lat: f64, lon: f64) -> Position {
    Position { lat: deg(lat), lon: deg(lon) }
}

/// Pushes a position; it is near when both coordinates moved by less than a thousandth of a degree.
fn push(trail: &mut AircraftTrail, lat: f64, lon: f64) {
    let near = match trail.last() {
        Some(p) => {
            let dlat = (lat - f64::from_bits(p.lat.bits)).abs();
            let dlon = (lon - f64::from_bits(p.lon.bits)).abs();
            dlat < 0.001 && dlon < 0.001
        }
        None => false,
    };
    trail.push(at(lat, lon), near, 0);
}

// ── Colours ─────────────────────────────────────────────────────────────────

#[test]
fn altitude_color_none_returns_ground_color() {
    let ground = aircraft::altitude_color(Some(0));
    let none_color = aircraft::altitude_color(None);
    assert_eq!(ground, none_color);
}

#[test]
fn altitude_color_ground_is_green() {
    let c = aircraft::altitude_color(Some(0));
    assert!(c.g() > c.r() && c.g() > c.b(), "ground should be greenish");
}

#[test]
fn altitude_color_high_is_red() {
    let c = aircraft::altitude_color(Some(45_000));
    assert!(c.r() > c.g() && c.r() > c.b(), "high altitude should be reddish");
}

#[test]
fn altitude_color_negative_clamped_to_ground() {
    let ground = aircraft::altitude_color(Some(0));
    let below = aircraft::altitude_color(Some(-500));
    assert_eq!(ground, below, "negative altitude should clamp to ground color");
}

#[test]
fn altitude_color_mid_is_yellowish() {
    let c = aircraft::altitude_color(Some(15_000));
    assert!(c.r() > 150 && c.g() > 150 && c.b() < 100, "mid altitude should be yellowish");
}

fn lerp_single(a: [u8; 3], b: [u8; 3], t: f32) -> [u8; 3] {
    let t = t.clamp(0.0, 1.0);
    let mut c = [0u8; 3];
    for i in 0..3 {
        c[i] = (a[i] as f32 + (b[i] as f32 - a[i] as f32) * t) as u8;
    }
    c
}

#[test]
fn altitude_colors_are_those_of_single_precision() {
    let ground = [0x73, 0xC9, 0x91];
    let low = [0xE8, 0xC5, 0x4B];
    let mid = [0xE0, 0x8C, 0x4E];
    let high = [0xFF, 0x55, 0x55];
    let mut alt = -100i32;
    while alt <= 46_000 {
        let t = (alt.max(0) as f32 / 45_000.0).clamp(0.0, 1.0);
        let expected = if t < 0.33 {
            lerp_single(ground, low, t / 0.33)
        } else if t < 0.66 {
            lerp_single(low, mid, (t - 0.33) / 0.33)
        } else {
            lerp_single(mid, high, (t - 0.66) / 0.34)
        };
        let c = aircraft::altitude_color(Some(alt));
        assert_eq!([c.r(), c.g(), c.b()], expected, "at {alt} ft");
        alt += 7;
    }
    assert_eq!(aircraft::altitude_color(Some(i32::MAX)), theme::rgb(0xFF5555));
}

#[test]
fn lerp_color_t0_returns_a() {
    let a = Color::from_rgb(255, 0, 0);
    let b = Color::from_rgb(0, 255, 0);
    assert_eq!(aircraft::lerp_color(a, b, Single { num: 0, shift: 0 }), a);
}

#[test]
fn lerp_color_t1_returns_b() {
    let a = Color::from_rgb(255, 0, 0);
    let b = Color::from_rgb(0, 255, 0);
    let result = aircraft::lerp_color(a, b, Single { num: 1, shift: 0 });
    assert_eq!(result.r(), 0);
    assert_eq!(result.g(), 255);
}

#[test]
fn lerp_color_midpoint() {
    let a = Color::from_rgb(0, 0, 0);
    let b = Color::from_rgb(100, 200, 50);
    let mid = aircraft::lerp_color(a, b, Single { num: 1, shift: 1 });
    assert_eq!(mid.r(), 50);
    assert_eq!(mid.g(), 100);
    assert_eq!(mid.b(), 25);
}

// ── Viewport ────────────────────────────────────────────────────────────────

#[test]
fn with_viewport_stores_and_returns_correct_values() {
    let map = AdsbMapWindow::with_viewport(deg(41.5), deg(-81.7), lvl(12.0));
    assert!((f64::from_bits(map.center_lat().bits) - 41.5).abs() < 1e-9);
    assert!((f64::from_bits(map.center_lon().bits) - -81.7).abs() < 1e-9);
    assert!((f32::from_bits(map.zoom_ppd().bits) - 12.0).abs() < 1e-4);
}

#[test]
fn new_defaults_to_cleveland_viewport() {
    let map = AdsbMapWindow::new();
    assert!((f64::from_bits(map.center_lat().bits) - 41.5).abs() < 1e-9);
    assert!((f64::from_bits(map.center_lon().bits) - -81.7).abs() < 1e-9);
    assert!((f32::from_bits(map.zoom_ppd().bits) - 12.0).abs() < 1e-4);
}

#[test]
fn viewport_stays_in_its_limits() {
    let mut map = AdsbMapWindow::new();
    map.pan(deg(89.0), deg(200.0));
    assert_eq!(map.center_lat(), deg(85.0));
    assert_eq!(map.center_lon(), deg(200.0));
    map.pan(deg(-85.5), deg(0.0));
    assert_eq!(map.center_lat(), deg(-85.0));
    map.pan(deg(-0.0), deg(-1.0));
    assert_eq!(map.center_lat(), deg(-0.0));
    map.set_zoom(lvl(1000.0));
    assert_eq!(map.zoom_ppd(), lvl(800.0));
    assert_eq!(map.grid_deg(), 1);
    map.set_zoom(lvl(0.1));
    assert_eq!(map.zoom_ppd(), lvl(1.2));
    assert_eq!(map.grid_deg(), 10);
    map.set_zoom(lvl(20.5));
    assert_eq!(map.grid_deg(), 5);
    map.go_home(deg(1.0), deg(2.0));
    assert_eq!(map.center_lat(), deg(1.0));
    assert_eq!(map.center_lon(), deg(2.0));
    assert_eq!(map.zoom_ppd(), lvl(12.0));
    map.pin_home();
    assert!(map.set_home_pending);
}

// ── Trails ──────────────────────────────────────────────────────────────────

#[test]
fn trail_push_adds_distinct_points() {
    let mut trail = AircraftTrail::new();
    push(&mut trail, 51.0, 0.0);
    push(&mut trail, 52.0, 0.0);
    assert_eq!(trail.points.len(), 2);
}

#[test]
fn trail_push_suppresses_duplicate_within_threshold() {
    let mut trail = AircraftTrail::new();
    push(&mut trail, 51.0, 0.0);
    push(&mut trail, 51.0005, 0.0005);
    assert_eq!(trail.points.len(), 1, "near-duplicate should be suppressed");
}

#[test]
fn trail_push_allows_point_just_beyond_threshold() {
    let mut trail = AircraftTrail::new();
    push(&mut trail, 51.0, 0.0);
    push(&mut trail, 51.0011, 0.0);
    assert_eq!(trail.points.len(), 2);
}

#[test]
fn trail_push_caps_at_max_trail() {
    let mut trail = AircraftTrail::new();
    for i in 0..aircraft::MAX_TRAIL + 10 {
        push(&mut trail, i as f64, 0.0);
    }
    assert_eq!(
        trail.points.len(),
        aircraft::MAX_TRAIL,
        "trail should cap at MAX_TRAIL={}",
        aircraft::MAX_TRAIL
    );
    assert_eq!(trail.points[0], at(10.0, 0.0));
    assert_eq!(trail.last(), Some(at(129.0, 0.0)));
    assert_eq!(trail.times.len(), 120);
}

#[test]
fn trails_follow_their_aircraft() {
    let mut map = AdsbMapWindow::new();
    assert_eq!(map.last_point(1), None);
    map.record(1, at(1.0, 1.0), false, 10);
    map.record(2, at(2.0, 2.0), false, 11);
    map.record(1, at(1.5, 1.0), false, 12);
    map.record(1, at(1.5, 1.0), true, 13);
    assert_eq!(map.trails[&1].points, vec![at(1.0, 1.0), at(1.5, 1.0)]);
    assert_eq!(map.trails[&1].times, vec![10, 12]);
    assert_eq!(map.last_point(2), Some(at(2.0, 2.0)));
    map.retain(&vec![2, 2, 9]);
    assert_eq!(map.last_point(1), None);
    assert_eq!(map.last_point(2), Some(at(2.0, 2.0)));
    assert_eq!(map.trails.len(), 1);
}

#[test]
fn clicks_select_aircraft() {
    let mut map = AdsbMapWindow::new();
    assert_eq!(map.click(&vec![5, 7], true), Some(7));
    assert_eq!(map.selected_icao, Some(7));
    assert_eq!(map.click(&vec![], false), None);
    assert_eq!(map.selected_icao, Some(7));
    assert_eq!(map.click(&vec![], true), None);
    assert_eq!(map.selected_icao, None);
    map.click(&vec![5], true);
    map.deselect();
    assert_eq!(map.selected_icao, None);
}

// ── Texts ───────────────────────────────────────────────────────────────────

#[test]
fn format_altitude_converts_to_meters() {
    assert_eq!(aircraft::format_altitude(0), "0 ft / 0 m");
    assert_eq!(aircraft::format_altitude(38000), "38000 ft / 11582 m");
    assert_eq!(aircraft::format_altitude(-500), "-500 ft / -152 m");
}

#[test]
fn altitudes_convert_as_in_double_precision() {
    let mut ft = -2_000_000i32;
    while ft <= 2_000_000 {
        let m = (ft as f64 * 0.3048) as i32;
        assert_eq!(aircraft::format_altitude(ft), format!("{ft} ft / {m} m"));
        ft += 25;
    }
    for ft in [i32::MIN, i32::MIN + 1, i32::MAX] {
        let m = (ft as f64 * 0.3048) as i32;
        assert_eq!(aircraft::format_altitude(ft), format!("{ft} ft / {m} m"));
    }
}

#[test]
fn vert_rate_display_climb_is_green_up_arrow() {
    let muted = Color::from_rgb(0x5A, 0x6A, 0x7A);
    let (arrow, color) = aircraft::vert_rate_display(500, muted);
    assert_eq!(arrow, "▲");
    assert!(color.g() > color.r(), "climb should be greenish");
}

#[test]
fn vert_rate_display_descent_is_orange_down_arrow() {
    let muted = Color::from_rgb(0x5A, 0x6A, 0x7A);
    let (arrow, color) = aircraft::vert_rate_display(-500, muted);
    assert_eq!(arrow, "▼");
    assert!(color.r() > color.g(), "descent should be orange-ish");
}

#[test]
fn vert_rate_display_level_is_muted() {
    let muted = Color::from_rgb(0x5A, 0x6A, 0x7A);
    let (arrow, color) = aircraft::vert_rate_display(0, muted);
    assert_eq!(arrow, "━");
    assert_eq!(color, muted);
}

#[test]
fn vert_rate_display_threshold_boundary() {
    let muted = Color { r: 0, g: 0, b: 0, a: 0 };
    assert_eq!(aircraft::vert_rate_display(64, muted).0, "━");
    assert_eq!(aircraft::vert_rate_display(65, muted).0, "▲");
    assert_eq!(aircraft::vert_rate_display(-64, muted).0, "━");
    assert_eq!(aircraft::vert_rate_display(-65, muted).0, "▼");
}

#[test]
fn aircraft_texts() {
    let muted = Color::from_rgb(1, 2, 3);
    assert_eq!(aircraft::format_vert_rate(640, muted), "▲ +640 fpm");
    assert_eq!(aircraft::format_vert_rate(-1216, muted), "▼ -1216 fpm");
    assert_eq!(aircraft::format_vert_rate(0, muted), "━ +0 fpm");
    assert_eq!(aircraft::icao_text(0x4840D6), "4840D6");
    assert_eq!(aircraft::icao_text(0xAB), "0000AB");
    assert_eq!(aircraft::icao_text(0x12345678), "12345678");
    assert_eq!(aircraft::aircraft_label(0xAB, &Some(String::from(" KLM1023 "))), "KLM1023");
    assert_eq!(aircraft::aircraft_label(0xAB, &Some(String::from("   "))), "0000AB");
    assert_eq!(aircraft::aircraft_label(0xAB, &None), "0000AB");
    assert_eq!(aircraft::detail_callsign(&Some(String::from("   "))), "");
    assert_eq!(aircraft::detail_callsign(&None), "—");
    assert_eq!(aircraft::height_label(12_375), "12300ft");
    assert_eq!(aircraft::height_label(-199), "-100ft");
    assert_eq!(aircraft::age_color(lvl(4.9), muted), theme::rgb(0x73C991));
    assert_eq!(aircraft::age_color(lvl(5.0), muted), muted);
    assert_eq!(aircraft::age_color(lvl(15.0), muted), theme::rgb(0xE8C54B));
    assert_eq!(adsb_map::count_text(12), "  12 aircraft");
}

// ── Satellites ──────────────────────────────────────────────────────────────

#[test]
fn sat_map_window_new_has_no_tles() {
    let w = SatMapWindow::new(deg(41.5), deg(-81.7));
    assert!(w.tles.is_empty());
    assert!(w.selected_idx.is_none());
}

#[test]
fn sat_map_window_viewport_starts_open() {
    let w = SatMapWindow::new(deg(41.5), deg(-81.7));
    assert!(w.viewport_open);
}

#[test]
fn flash_norad_ids_empty_on_start() {
    let w = SatMapWindow::new(deg(41.5), deg(-81.7));
    assert!(w.flash_norad_ids.is_empty());
}

fn tle(name: &str, norad_id: u32) -> TleEntry {
    TleEntry { name: String::from(name), norad_id }
}

#[test]
fn satellites_are_selected_and_flash() {
    let mut w = SatMapWindow::new(deg(41.5), deg(-81.7));
    assert!(w.begin_fetch());
    assert!(!w.begin_fetch());
    w.take_tles(vec![]);
    assert_eq!(w.selected_idx, None);
    w.take_tles(vec![tle("A", 11), tle("B", 22)]);
    assert_eq!(w.selected_idx, Some(0));
    assert_eq!(w.dot_color(0), theme::rgb(0x4CAFFF));
    assert_eq!(w.dot_color(1), theme::rgb(0x88CC88));
    w.flash_norad_ids.push(11);
    assert_eq!(w.dot_color(0), theme::rgb(0xFFFF00));
    w.end_frame();
    assert_eq!(w.dot_color(0), theme::rgb(0x4CAFFF));
    w.click(&vec![0, 1]);
    assert_eq!(w.selected_idx, Some(1));
    w.click(&vec![]);
    assert_eq!(w.selected_idx, Some(1));
    w.select(0);
    w.take_tles(vec![tle("C", 33)]);
    assert_eq!(w.selected_idx, Some(0));
    w.pan(deg(86.0), deg(7.0));
    assert_eq!(w.center_lat, deg(85.0));
    w.set_zoom(lvl(0.0));
    assert_eq!(w.zoom_ppd, lvl(1.2));
}

#[test]
fn tiles_are_asked_for_once() {
    let mut w = SatMapWindow::new(deg(41.5), deg(-81.7));
    assert!(w.set_tile_zoom(3));
    assert!(!w.set_tile_zoom(3));
    let key = |x: i32| TileKey { z: 3, x, y: 2 };
    assert!(!w.request_tile(key(0), true));
    for x in 0..24 {
        assert!(w.request_tile(key(x), false));
        assert!(!w.request_tile(key(x), false));
    }
    assert!(!w.request_tile(key(24), false));
    w.tile_arrived(key(5));
    w.tile_arrived(key(100));
    assert_eq!(w.pending_tiles.len(), 23);
    assert!(w.request_tile(key(24), false));
    assert!(w.set_tile_zoom(4));
    assert!(w.pending_tiles.is_empty());
}

#[test]
fn tiles_in_view_surround_the_centre() {
    let tiles = sat_map::visible_tiles(2, 1, 0, 2, 1);
    // Two tiles to each side of the centre, one row above and below; the first row is repeated.
    assert_eq!(tiles.len(), 15);
    assert_eq!(tiles[0], TileKey { z: 2, x: -1, y: 0 });
    assert_eq!(tiles[4], TileKey { z: 2, x: 3, y: 0 });
    assert_eq!(tiles[7], TileKey { z: 2, x: 1, y: 0 });
    assert_eq!(tiles[14], TileKey { z: 2, x: 3, y: 1 });
    let low = sat_map::visible_tiles(2, 1, 3, 0, 2);
    assert_eq!(low.last(), Some(&TileKey { z: 2, x: 2, y: 3 }));
    assert_eq!(sat_map::visible_tiles(0, 0, 0, 0, 0).len(), 9);
    let key = TileKey { z: 5, x: -3, y: 17 };
    assert_eq!(sat_map::tile_url(key), "https://tile.openstreetmap.org/5/-3/17.png");
    assert_eq!(sat_map::tile_name(key), "tile_5_-3_17");
}

#[test]
fn passes_are_described() {
    assert_eq!(sat_map::format_wait(Some(59 * 60 + 59)), "in 59m");
    assert_eq!(sat_map::format_wait(Some(3 * 3600 + 120)), "in 3h2m");
    assert_eq!(sat_map::format_wait(None), "now");
    assert_eq!(sat_map::format_pass(3600, 4260), "AOS 01:00:00 → LOS 01:11:00  (11m)");
    assert_eq!(sat_map::format_pass(4260, 3600), "AOS 01:11:00 → LOS 01:00:00  (0m)");
    assert_eq!(sat_map::pass_color(deg(60.5)), theme::rgb(0x44DD66));
    assert_eq!(sat_map::pass_color(deg(60.0)), theme::rgb(0xE8C54B));
    assert_eq!(sat_map::pass_color(deg(20.0)), theme::rgb(0x88CC88));
    assert_eq!(sat_map::list_color(Some(deg(5.1)), false), theme::rgb(0x44DD66));
    assert_eq!(sat_map::list_color(Some(deg(5.0)), false), theme::rgb(0x444444));
    assert_eq!(sat_map::list_color(None, true), theme::rgb(0xFFFFFF));
    assert!(sat_map::track_is_stale(None));
    assert!(!sat_map::track_is_stale(Some(60_000_000_000)));
    assert!(sat_map::track_is_stale(Some(60_000_000_001)));
}

// ── Tile images ─────────────────────────────────────────────────────────────

/// A PNG file, two pixels wide and one high, with the given RGBA pixels.
fn png_file(pixels: [u8; 8]) -> Vec<u8> {
    let image = image::RgbaImage::from_raw(2, 1, pixels.to_vec()).unwrap();
    let mut file = std::io::Cursor::new(Vec::new());
    image.write_to(&mut file, image::ImageFormat::Png).unwrap();
    file.into_inner()
}

#[test]
fn tiles_are_decoded_and_premultiplied() {
    let tile = sat_map::decode_tile(&png_file([10, 20, 30, 255, 40, 50, 60, 0])).unwrap();
    assert_eq!((tile.width, tile.height), (2, 1));
    assert_eq!(
        tile.pixels,
        vec![Color::from_rgb(10, 20, 30), Color { r: 0, g: 0, b: 0, a: 0 }]
    );
    let tile = sat_map::decode_tile(&png_file([200, 100, 0, 128, 1, 2, 3, 255])).unwrap();
    let c = egui::Color32::from_rgba_unmultiplied(200, 100, 0, 128).to_array();
    assert_eq!(tile.pixels[0], Color { r: c[0], g: c[1], b: c[2], a: c[3] });
    assert_eq!(tile.pixels[0].a(), 128);
    assert_ne!(tile.pixels[0].r(), 200);
    assert_eq!(tile.pixels[0].b(), 0);
    let tile = sat_map::decode_tile(&png_file([90, 90, 90, 77, 0, 0, 0, 200])).unwrap();
    assert_eq!(tile.pixels[0].r(), tile.pixels[0].g());
    assert_eq!(tile.pixels[0].g(), tile.pixels[0].b());
    assert_eq!(tile.pixels[1], Color { r: 0, g: 0, b: 0, a: 200 });
}

#[test]
fn broken_tiles_are_refused() {
    assert!(sat_map::decode_tile(&vec![]).is_none());
    assert!(sat_map::decode_tile(&vec![1, 2, 3, 4]).is_none());
    let mut file = png_file([10, 20, 30, 255, 40, 50, 60, 0]);
    file.truncate(20);
    assert!(sat_map::decode_tile(&file).is_none());
}
