//! The satellite map: tiles, satellites and passes.

use vstd::arithmetic::power2::*;
use vstd::prelude::*;
use vstd::string::*;

use crate::degrees;
use crate::degrees::Degrees;
use crate::level;
use crate::level::Level;
use crate::adsb_map;
use crate::orbcomm;
use crate::text;
use crate::theme;
use crate::theme::Color;

verus! {

// ── Tiles ───────────────────────────────────────────────────────────────────

/// A map tile: its zoom and its place.
#[derive(Clone, Copy, PartialEq, Eq, Structural, Debug)]
pub struct TileKey {
    pub z: u8,
    pub x: i32,
    pub y: i32,
}

/// Most tiles fetched at the same time.
pub const MAX_PENDING: usize = 24;

pub open spec fn url_text(key: TileKey) -> Seq<char> {
    "https://tile.openstreetmap.org/"@ + text::dec(key.z as nat) + "/"@ + text::dec_signed(
        key.x as int,
    ) + "/"@ + text::dec_signed(key.y as int) + ".png"@
}

/// Where a tile is fetched from.
pub fn tile_url(key: TileKey) -> (r: String)
    ensures
        r@ == url_text(key),
{
    let mut s: String = text::owned("https://tile.openstreetmap.org/");
    text::push_dec(&mut s, key.z as u64);
    s.append("/");
    text::push_dec_signed(&mut s, key.x as i64);
    s.append("/");
    text::push_dec_signed(&mut s, key.y as i64);
    s.append(".png");
    assert(s@ =~= url_text(key));
    s
}

pub open spec fn tile_text(key: TileKey) -> Seq<char> {
    "tile_"@ + text::dec(key.z as nat) + "_"@ + text::dec_signed(key.x as int) + "_"@
        + text::dec_signed(key.y as int)
}

/// The name of the texture of a tile.
pub fn tile_name(key: TileKey) -> (r: String)
    ensures
        r@ == tile_text(key),
{
    let mut s: String = text::owned("tile_");
    text::push_dec(&mut s, key.z as u64);
    s.append("_");
    text::push_dec_signed(&mut s, key.x as i64);
    s.append("_");
    text::push_dec_signed(&mut s, key.y as i64);
    assert(s@ =~= tile_text(key));
    s
}

/// Number of tiles across the world at a zoom.
pub open spec fn world(z: nat) -> int
    decreases z,
{
    if z == 0 {
        1
    } else {
        2 * world((z - 1) as nat)
    }
}

fn world_width(z: u8) -> (r: i32)
    requires
        z <= 30,
    ensures
        r == world(z as nat),
        r >= 1,
{
    let mut i: u8 = 0;
    let mut n: i32 = 1;
    proof {
        reveal_with_fuel(world, 32);
    }
    while i < z
        invariant
            i <= z <= 30,
            n == world(i as nat),
            n >= 1,
            n <= world(30),
            world(30) == 0x4000_0000,
            forall|a: nat| #![trigger world(a)] a < 30 ==> world(a) <= 0x2000_0000,
        decreases z - i,
    {
        n = 2 * n;
        i += 1;
        assert(world(i as nat) == 2 * world((i - 1) as nat));
    }
    n
}

/// The tile `dx`, `dy` away from the one under the centre; rows beyond the poles show the last.
pub open spec fn tile_at(z: u8, cx: int, cy: int, dx: int, dy: int) -> TileKey {
    let y = cy + dy;
    TileKey {
        z,
        x: (cx + dx) as i32,
        y: (if y < 0 {
            0
        } else if y > world(z as nat) - 1 {
            world(z as nat) - 1
        } else {
            y
        }) as i32,
    }
}

/// The tiles in view, row by row, when `tiles_x` by `tiles_y` of them fill the window: one more on
/// every side.
pub open spec fn tiles_in_view(z: u8, cx: int, cy: int, tiles_x: int, tiles_y: int) -> Seq<
    TileKey,
> {
    let hx = tiles_x / 2 + 1;
    let hy = tiles_y / 2 + 1;
    let w = 2 * hx + 1;
    Seq::new(
        (w * (2 * hy + 1)) as nat,
        |k: int| tile_at(z, cx, cy, k % w - hx, k / w - hy),
    )
}

pub fn visible_tiles(z: u8, cx: i32, cy: i32, tiles_x: i32, tiles_y: i32) -> (r: Vec<TileKey>)
    requires
        z <= 30,
        0 <= tiles_x,
        0 <= tiles_y,
        i32::MIN <= cx - (tiles_x / 2 + 1),
        cx + (tiles_x / 2 + 1) <= i32::MAX,
        i32::MIN <= cy - (tiles_y / 2 + 1),
        cy + (tiles_y / 2 + 1) <= i32::MAX,
    ensures
        r@ == tiles_in_view(z, cx as int, cy as int, tiles_x as int, tiles_y as int),
{
    let top: i32 = world_width(z) - 1;
    let hx: i64 = tiles_x as i64 / 2 + 1;
    let hy: i64 = tiles_y as i64 / 2 + 1;
    let w: i64 = 2 * hx + 1;
    let h: i64 = 2 * hy + 1;
    assert(0 < w * h <= 0x8000_0003 * 0x8000_0003) by (nonlinear_arith)
        requires
            3 <= w <= 0x8000_0003,
            3 <= h <= 0x8000_0003,
    ;
    let n: i64 = w * h;
    let mut r: Vec<TileKey> = Vec::new();
    let mut k: i64 = 0;
    while k < n
        invariant
            0 <= k <= n,
            n == w * h,
            h == 2 * hy + 1,
            w == 2 * hx + 1,
            hx == tiles_x as int / 2 + 1,
            hy == tiles_y as int / 2 + 1,
            0 < hx,
            0 < hy,
            i32::MIN <= cx - hx,
            cx + hx <= i32::MAX,
            i32::MIN <= cy - hy,
            cy + hy <= i32::MAX,
            top == world(z as nat) - 1,
            top >= 0,
            r@.len() == k,
            forall|j: int|
                0 <= j < k ==> #[trigger] r@[j] == tile_at(
                    z,
                    cx as int,
                    cy as int,
                    j % (w as int) - hx,
                    j / (w as int) - hy,
                ),
        decreases n - k,
    {
        assert(0 <= k / w < h && 0 <= k % w < w) by (nonlinear_arith)
            requires
                0 <= k < w * h,
                w > 0,
        ;
        let x: i64 = cx as i64 + (k % w - hx);
        let y: i64 = cy as i64 + (k / w - hy);
        let row: i32 = if y < 0 {
            0
        } else if y > top as i64 {
            top
        } else {
            y as i32
        };
        r.push(TileKey { z, x: x as i32, y: row });
        k += 1;
    }
    assert(r@ =~= tiles_in_view(z, cx as int, cy as int, tiles_x as int, tiles_y as int));
    r
}

// ── Tile images ─────────────────────────────────────────────────────────────

/// A decoded picture: its size and its pixels (red, green, blue, alpha), row by row.
pub struct RgbaPicture {
    pub width: u32,
    pub height: u32,
    pub pixels: Vec<(u8, u8, u8, u8)>,
}

/// A picture ready to be drawn, its colours premultiplied by their alpha.
pub struct TileImage {
    pub width: u32,
    pub height: u32,
    pub pixels: Vec<Color>,
}

/// What `image::load_from_memory` makes of the bytes of a picture file, as 8-bit RGBA: width,
/// height and pixels, or nothing when it cannot be decoded.
pub uninterp spec fn decoded_picture(bytes: Seq<u8>) -> Option<
    (u32, u32, Seq<(u8, u8, u8, u8)>),
>;

/// Calls `image::load_from_memory` and, on the image it returns, `to_rgba8`. The result is that
/// named `decoded_picture`; a picture has as many pixels as its size says. The bytes alone decide
/// as long as the process registers no decoding hook with `image::hooks`, which neither this crate
/// nor its dependencies do.
#[verifier::external_body]
fn load_picture(bytes: &Vec<u8>) -> (r: Option<RgbaPicture>)
    ensures
        match r {
            Some(p) => {
                &&& decoded_picture(bytes@) == Some((p.width, p.height, p.pixels@))
                &&& p.pixels@.len() == p.width * p.height
            },
            None => decoded_picture(bytes@) is None,
        },
{
    let rgba = image::load_from_memory(bytes).ok()?.to_rgba8();
    let (width, height) = rgba.dimensions();
    let pixels = rgba.pixels().map(|p| (p[0], p[1], p[2], p[3])).collect();
    Some(RgbaPicture { width, height, pixels })
}

/// `c` is the pixel `p` premultiplied by its alpha, as far as that is known: an opaque pixel keeps
/// its colour, a transparent one becomes black, a dark channel stays dark, equal channels stay
/// equal, and the alpha is kept.
pub open spec fn is_premultiplied(p: (u8, u8, u8, u8), c: Color) -> bool {
    &&& c.a == p.3
    &&& p.3 == 255 ==> c == Color::from_rgb(p.0, p.1, p.2)
    &&& p.3 == 0 ==> c == (Color { r: 0, g: 0, b: 0, a: 0 })
    &&& p.0 == 0 ==> c.r == 0
    &&& p.1 == 0 ==> c.g == 0
    &&& p.2 == 0 ==> c.b == 0
    &&& p.0 == p.1 ==> c.r == c.g
    &&& p.1 == p.2 ==> c.g == c.b
    &&& p.0 == p.2 ==> c.r == c.b
}

/// Calls `egui::Color32::from_rgba_unmultiplied`. The alpha is kept; an opaque colour is kept
/// whole and a transparent one becomes transparent black. A translucent colour takes each channel
/// from one table of channel and alpha, so that equal channels stay equal and zero stays zero. The
/// other entries of that table come out of `f32::powf`, whose precision differs between machines,
/// and are left open.
#[verifier::external_body]
fn premultiply(p: (u8, u8, u8, u8)) -> (c: Color)
    ensures
        is_premultiplied(p, c),
{
    let [r, g, b, a] = egui::Color32::from_rgba_unmultiplied(p.0, p.1, p.2, p.3).to_array();
    Color { r, g, b, a }
}

/// Premultiplies the pixels of a picture.
pub fn tile_pixels(pixels: &Vec<(u8, u8, u8, u8)>) -> (r: Vec<Color>)
    ensures
        r@.len() == pixels@.len(),
        forall|i: int| 0 <= i < r@.len() ==> is_premultiplied(pixels@[i], #[trigger] r@[i]),
{
    let mut r: Vec<Color> = Vec::new();
    let mut i: usize = 0;
    while i < pixels.len()
        invariant
            i <= pixels.len(),
            r@.len() == i,
            forall|j: int| 0 <= j < i ==> is_premultiplied(pixels@[j], #[trigger] r@[j]),
        decreases pixels.len() - i,
    {
        r.push(premultiply(pixels[i]));
        i += 1;
    }
    r
}

/// Decodes the file of a tile; nothing when it cannot be decoded.
pub fn decode_tile(bytes: &Vec<u8>) -> (r: Option<TileImage>)
    ensures
        match decoded_picture(bytes@) {
            Some(p) => {
                &&& r is Some
                &&& r->0.width == p.0
                &&& r->0.height == p.1
                &&& r->0.pixels@.len() == p.2.len()
                &&& r->0.pixels@.len() == p.0 * p.1
                &&& forall|i: int|
                    0 <= i < p.2.len() ==> is_premultiplied(p.2[i], #[trigger] r->0.pixels@[i])
            },
            None => r is None,
        },
{
    match load_picture(bytes) {
        Some(p) => {
            let pixels: Vec<Color> = tile_pixels(&p.pixels);
            Some(TileImage { width: p.width, height: p.height, pixels })
        },
        None => None,
    }
}

// ── Window ──────────────────────────────────────────────────────────────────

/// 4.0 pixels per degree.
pub const START_ZOOM_BITS: u32 = 0x4080_0000;

/// A satellite whose orbit is known.
pub struct TleEntry {
    pub name: String,
    pub norad_id: u32,
}

pub struct SatMapWindow {
    pub center_lat: Degrees,
    pub center_lon: Degrees,
    pub zoom_ppd: Level,
    /// Index of the selected satellite.
    pub selected_idx: Option<usize>,
    /// Tiles that are being fetched.
    pub pending_tiles: Vec<TileKey>,
    /// Zoom of the tiles; 255 before the first.
    pub last_tile_z: u8,
    pub tles: Vec<TleEntry>,
    pub tle_fetch_started: bool,
    /// Cleared when the window is closed.
    pub viewport_open: bool,
    /// Catalogue numbers of the satellites heard in this frame.
    pub flash_norad_ids: Vec<u32>,
}

/// The satellite in front once a list of `n` arrives.
pub open spec fn first_choice(selected: Option<usize>, n: int) -> Option<usize> {
    if selected is None && n > 0 {
        Some(0)
    } else {
        selected
    }
}

/// Whether a tile is to be fetched: it is not at hand, nor on its way, and not too many are.
pub open spec fn is_wanted(pending: Seq<TileKey>, key: TileKey, cached: bool) -> bool {
    !cached && !pending.contains(key) && pending.len() < MAX_PENDING
}

/// What the arrival of satellites does.
pub open spec fn after_tles(a: &SatMapWindow, tles: Vec<TleEntry>, n: &SatMapWindow) -> bool {
    *n == (SatMapWindow {
        tles,
        selected_idx: first_choice(a.selected_idx, tles@.len() as int),
        ..*a
    })
}

/// What a click in the list does.
pub open spec fn after_select(a: &SatMapWindow, idx: usize, n: &SatMapWindow) -> bool {
    *n == (SatMapWindow { selected_idx: Some(idx), ..*a })
}

/// What a click on the map does.
pub open spec fn after_click(a: &SatMapWindow, hits: Seq<usize>, n: &SatMapWindow) -> bool {
    *n == (SatMapWindow {
        selected_idx: if hits.len() > 0 {
            Some(hits.last())
        } else {
            a.selected_idx
        },
        ..*a
    })
}

/// What moving the map does.
pub open spec fn after_pan(a: &SatMapWindow, lat: Degrees, lon: Degrees, n: &SatMapWindow) -> bool {
    *n == (SatMapWindow {
        center_lat: lat.within(
            degrees::of(adsb_map::LAT_MIN_BITS),
            degrees::of(adsb_map::LAT_MAX_BITS),
        ),
        center_lon: lon,
        ..*a
    })
}

/// What setting the zoom does.
pub open spec fn after_zoom(a: &SatMapWindow, zoom: Level, n: &SatMapWindow) -> bool {
    *n == (SatMapWindow {
        zoom_ppd: zoom.within(
            level::of(adsb_map::MIN_ZOOM_BITS),
            level::of(adsb_map::MAX_ZOOM_BITS),
        ),
        ..*a
    })
}

/// What the zoom of the tiles does in a frame.
pub open spec fn after_tile_zoom(a: &SatMapWindow, z: u8, n: &SatMapWindow, drop: bool) -> bool {
    &&& n.wf()
    &&& drop == (z != a.last_tile_z)
    &&& *n == (SatMapWindow {
        last_tile_z: z,
        pending_tiles: n.pending_tiles,
        ..*a
    })
    &&& drop ==> n.pending_tiles@ == Seq::<TileKey>::empty()
    &&& !drop ==> n.pending_tiles == a.pending_tiles
}

/// What the arrival of a tile does.
pub open spec fn after_tile(a: &SatMapWindow, key: TileKey, n: &SatMapWindow) -> bool {
    &&& n.wf()
    &&& *n == (SatMapWindow {
        pending_tiles: n.pending_tiles,
        ..*a
    })
    &&& !n.pending_tiles@.contains(key)
    &&& forall|other: TileKey|
        other != key ==> (n.pending_tiles@.contains(other) == a.pending_tiles@.contains(other))
}

/// What asking for a tile does.
pub open spec fn after_request(
    a: &SatMapWindow,
    key: TileKey,
    cached: bool,
    n: &SatMapWindow,
    fetch: bool,
) -> bool {
    &&& n.wf()
    &&& fetch == is_wanted(a.pending_tiles@, key, cached)
    &&& *n == (SatMapWindow {
        pending_tiles: n.pending_tiles,
        ..*a
    })
    &&& fetch ==> n.pending_tiles@ == a.pending_tiles@.push(key)
    &&& !fetch ==> n.pending_tiles == a.pending_tiles
}

/// What beginning to fetch the orbits does.
pub open spec fn after_begin_fetch(a: &SatMapWindow, n: &SatMapWindow, r: bool) -> bool {
    &&& r == !a.tle_fetch_started
    &&& *n == (SatMapWindow { tle_fetch_started: true, ..*a })
}

/// The colour of a satellite on the map.
pub open spec fn dot_color_spec(a: &SatMapWindow, idx: usize) -> Color {
    if a.flash_norad_ids@.contains(a.tles@[idx as int].norad_id) {
        theme::rgb(0xFFFF00)
    } else if a.selected_idx == Some(idx) {
        theme::rgb(0x4CAFFF)
    } else {
        theme::rgb(0x88CC88)
    }
}

/// `w` is a map as it opens on a place.
pub open spec fn is_new_map(w: SatMapWindow, center_lat: Degrees, center_lon: Degrees) -> bool {
    &&& w.wf()
    &&& w.center_lat == center_lat
    &&& w.center_lon == center_lon
    &&& w.zoom_ppd == level::of(START_ZOOM_BITS)
    &&& w.selected_idx is None
    &&& w.pending_tiles@ == Seq::<TileKey>::empty()
    &&& w.last_tile_z == 255
    &&& w.tles@ == Seq::<TleEntry>::empty()
    &&& !w.tle_fetch_started
    &&& w.viewport_open
    &&& w.flash_norad_ids@ == Seq::<u32>::empty()
}

/// What the end of a frame does.
pub open spec fn after_frame_end(a: &SatMapWindow, n: &SatMapWindow) -> bool {
    &&& *n == (SatMapWindow {
        flash_norad_ids: n.flash_norad_ids,
        ..*a
    })
    &&& n.flash_norad_ids@ == Seq::<u32>::empty()
}

impl SatMapWindow {
    /// At most so many tiles are on their way, none twice.
    pub open spec fn wf(self) -> bool {
        self.pending_tiles@.len() <= MAX_PENDING && self.pending_tiles@.no_duplicates()
    }

    pub fn new(center_lat: Degrees, center_lon: Degrees) -> (w: SatMapWindow)
        ensures
            is_new_map(w, center_lat, center_lon),
    {
        SatMapWindow {
            center_lat,
            center_lon,
            zoom_ppd: level::of(START_ZOOM_BITS),
            selected_idx: None,
            pending_tiles: Vec::new(),
            last_tile_z: 255,
            tles: Vec::new(),
            tle_fetch_started: false,
            viewport_open: true,
            flash_norad_ids: Vec::new(),
        }
    }

    /// Whether the orbits are to be fetched, which is so once.
    pub fn begin_fetch(&mut self) -> (r: bool)
        ensures
            after_begin_fetch(old(self), final(self), r),
    {
        let r: bool = !self.tle_fetch_started;
        self.tle_fetch_started = true;
        r
    }

    /// Takes over the satellites whose orbits arrived; the first is selected unless one is.
    pub fn take_tles(&mut self, tles: Vec<TleEntry>)
        ensures
            after_tles(old(self), tles, final(self)),
    {
        if self.selected_idx.is_none() && tles.len() > 0 {
            self.selected_idx = Some(0);
        }
        self.tles = tles;
    }

    /// A click in the list.
    pub fn select(&mut self, idx: usize)
        ensures
            after_select(old(self), idx, final(self)),
    {
        self.selected_idx = Some(idx);
    }

    /// A click on the map: the last of the satellites under the pointer is selected.
    pub fn click(&mut self, hits: &Vec<usize>)
        ensures
            after_click(old(self), hits@, final(self)),
    {
        if hits.len() > 0 {
            self.selected_idx = Some(hits[hits.len() - 1]);
        }
    }

    /// Moves the centre; the map ends at 85 degrees north and south.
    pub fn pan(&mut self, lat: Degrees, lon: Degrees)
        ensures
            after_pan(old(self), lat, lon, final(self)),
    {
        self.center_lat = lat.clamp(
            degrees::of(adsb_map::LAT_MIN_BITS),
            degrees::of(adsb_map::LAT_MAX_BITS),
        );
        self.center_lon = lon;
    }

    /// Sets the zoom within its limits.
    pub fn set_zoom(&mut self, zoom: Level)
        ensures
            after_zoom(old(self), zoom, final(self)),
    {
        self.zoom_ppd = zoom.clamp(
            level::of(adsb_map::MIN_ZOOM_BITS),
            level::of(adsb_map::MAX_ZOOM_BITS),
        );
    }

    /// The zoom of the tiles in this frame. When it changed, nothing is waited for any more and
    /// the tiles at hand are to be dropped, which the result says.
    pub fn set_tile_zoom(&mut self, z: u8) -> (drop: bool)
        requires
            old(self).wf(),
        ensures
            after_tile_zoom(old(self), z, final(self), drop),
    {
        if z != self.last_tile_z {
            self.pending_tiles = Vec::new();
            self.last_tile_z = z;
            true
        } else {
            false
        }
    }

    fn position_of(&self, key: TileKey) -> (r: Option<usize>)
        ensures
            match r {
                Some(i) => i < self.pending_tiles@.len() && self.pending_tiles@[i as int] == key,
                None => !self.pending_tiles@.contains(key),
            },
    {
        let mut i: usize = 0;
        while i < self.pending_tiles.len()
            invariant
                i <= self.pending_tiles.len(),
                forall|j: int| 0 <= j < i ==> self.pending_tiles@[j] != key,
            decreases self.pending_tiles.len() - i,
        {
            if self.pending_tiles[i] == key {
                return Some(i);
            }
            i += 1;
        }
        None
    }

    /// A tile arrived, or could not be fetched.
    pub fn tile_arrived(&mut self, key: TileKey)
        requires
            old(self).wf(),
        ensures
            after_tile(old(self), key, final(self)),
    {
        if let Some(i) = self.position_of(key) {
            let ghost before = self.pending_tiles@;
            self.pending_tiles.remove(i);
            proof {
                let after = self.pending_tiles@;
                assert(after =~= before.remove(i as int));
                assert forall|a: int, b: int|
                    0 <= a < after.len() && 0 <= b < after.len() && a != b implies after[a]
                    != after[b] by {
                    let ga = if a < i {
                        a
                    } else {
                        a + 1
                    };
                    let gb = if b < i {
                        b
                    } else {
                        b + 1
                    };
                    assert(before[ga] != before[gb]);
                }
                assert forall|other: TileKey| other != key implies (after.contains(other)
                    == before.contains(other)) by {
                    if before.contains(other) {
                        let g = choose|g: int| 0 <= g < before.len() && before[g] == other;
                        let a = if g < i {
                            g
                        } else {
                            g - 1
                        };
                        assert(after[a] == other);
                    }
                    if after.contains(other) {
                        let a = choose|a: int| 0 <= a < after.len() && after[a] == other;
                        let g = if a < i {
                            a
                        } else {
                            a + 1
                        };
                        assert(before[g] == other);
                    }
                }
                if after.contains(key) {
                    let a = choose|a: int| 0 <= a < after.len() && after[a] == key;
                    let g = if a < i {
                        a
                    } else {
                        a + 1
                    };
                    assert(before[g] == before[i as int]);
                }
            }
        }
    }

    /// Whether a tile in view is to be fetched; it then counts as on its way.
    pub fn request_tile(&mut self, key: TileKey, cached: bool) -> (fetch: bool)
        requires
            old(self).wf(),
        ensures
            after_request(old(self), key, cached, final(self), fetch),
    {
        if !cached && self.position_of(key).is_none() && self.pending_tiles.len() < MAX_PENDING {
            self.pending_tiles.push(key);
            true
        } else {
            false
        }
    }

    /// The colour of a satellite: yellow when it was heard in this frame, blue when selected.
    pub fn dot_color(&self, idx: usize) -> (c: Color)
        requires
            idx < self.tles@.len(),
        ensures
            c == dot_color_spec(self, idx),
    {
        let id: u32 = self.tles[idx].norad_id;
        let mut i: usize = 0;
        while i < self.flash_norad_ids.len()
            invariant
                i <= self.flash_norad_ids.len(),
                idx < self.tles@.len(),
                id == self.tles@[idx as int].norad_id,
                forall|j: int| 0 <= j < i ==> self.flash_norad_ids@[j] != id,
            decreases self.flash_norad_ids.len() - i,
        {
            if self.flash_norad_ids[i] == id {
                assert(self.flash_norad_ids@.contains(id));
                return theme::rgb(0xFFFF00);
            }
            i += 1;
        }
        let selected: bool = match self.selected_idx {
            Some(k) => k == idx,
            None => false,
        };
        if selected {
            theme::rgb(0x4CAFFF)
        } else {
            theme::rgb(0x88CC88)
        }
    }

    /// The flashes last one frame.
    pub fn end_frame(&mut self)
        ensures
            after_frame_end(old(self), final(self)),
    {
        self.flash_norad_ids = Vec::new();
    }
}

/// A tile on its way is not asked for again.
pub proof fn law_tile_asked_once(pending: Seq<TileKey>, key: TileKey, cached: bool)
    requires
        is_wanted(pending, key, cached),
    ensures
        !is_wanted(pending.push(key), key, false),
{
    assert(pending.push(key)[pending.len() as int] == key);
}

// ── Passes ──────────────────────────────────────────────────────────────────

/// Seconds after which the track of a satellite is computed again.
pub const TRACK_INTERVAL_SECS: u128 = 60;

/// Whether the track is to be computed.
pub open spec fn track_is_stale_spec(age_nanos: Option<u128>) -> bool {
    age_nanos is None || age_nanos->0 > 60_000_000_000
}

/// Whether the track is to be computed, given how many nanoseconds ago it last was.
pub fn track_is_stale(age_nanos: Option<u128>) -> (r: bool)
    ensures
        r == track_is_stale_spec(age_nanos),
{
    match age_nanos {
        Some(n) => n > TRACK_INTERVAL_SECS * 1_000_000_000,
        None => true,
    }
}

/// How long until a pass begins.
pub open spec fn wait_text(secs: Option<u64>) -> Seq<char> {
    match secs {
        Some(s) => {
            let m = s as nat / 60;
            if m < 60 {
                "in "@ + text::dec(m) + "m"@
            } else {
                "in "@ + text::dec(m / 60) + "h"@ + text::dec(m % 60) + "m"@
            }
        },
        None => "now"@,
    }
}

pub fn format_wait(secs: Option<u64>) -> (r: String)
    ensures
        r@ == wait_text(secs),
{
    match secs {
        Some(n) => {
            let m: u64 = n / 60;
            let mut s: String = text::owned("in ");
            if m < 60 {
                text::push_dec(&mut s, m);
            } else {
                text::push_dec(&mut s, m / 60);
                s.append("h");
                text::push_dec(&mut s, m % 60);
            }
            s.append("m");
            assert(s@ =~= wait_text(secs));
            s
        },
        None => text::owned("now"),
    }
}

/// Begin, end and minutes of a pass.
pub open spec fn pass_text(aos: nat, los: nat) -> Seq<char> {
    let mins = if los < aos {
        0nat
    } else {
        ((los - aos) / 60) as nat
    };
    "AOS "@ + orbcomm::clock_text(aos) + " → LOS "@ + orbcomm::clock_text(los) + "  ("@ + text::dec(
        mins,
    ) + "m)"@
}

pub fn format_pass(aos_secs: u64, los_secs: u64) -> (r: String)
    ensures
        r@ == pass_text(aos_secs as nat, los_secs as nat),
{
    let mut s: String = text::owned("AOS ");
    let aos: String = orbcomm::format_utc_hms(aos_secs);
    s.append(aos.as_str());
    s.append(" → LOS ");
    let los: String = orbcomm::format_utc_hms(los_secs);
    s.append(los.as_str());
    s.append("  (");
    let mins: u64 = if los_secs < aos_secs {
        0
    } else {
        (los_secs - aos_secs) / 60
    };
    text::push_dec(&mut s, mins);
    s.append("m)");
    assert(s@ =~= pass_text(aos_secs as nat, los_secs as nat));
    s
}

/// 60.0
pub const HIGH_PASS_BITS: u64 = 0x404E_0000_0000_0000;

/// 20.0
pub const MID_PASS_BITS: u64 = 0x4034_0000_0000_0000;

/// 5.0
pub const VISIBLE_BITS: u64 = 0x4014_0000_0000_0000;

/// The colour of a pass.
pub open spec fn pass_color_spec(max_el: Degrees) -> Color {
    if degrees::of(HIGH_PASS_BITS).below(max_el) {
        theme::rgb(0x44DD66)
    } else if degrees::of(MID_PASS_BITS).below(max_el) {
        theme::rgb(0xE8C54B)
    } else {
        theme::rgb(0x88CC88)
    }
}

/// The colour of a pass by its highest elevation.
pub fn pass_color(max_el: Degrees) -> (c: Color)
    ensures
        c == pass_color_spec(max_el),
{
    if degrees::of(HIGH_PASS_BITS).lt(max_el) {
        theme::rgb(0x44DD66)
    } else if degrees::of(MID_PASS_BITS).lt(max_el) {
        theme::rgb(0xE8C54B)
    } else {
        theme::rgb(0x88CC88)
    }
}

/// The colour of a satellite in the list.
pub open spec fn list_color_spec(el: Option<Degrees>, selected: bool) -> Color {
    if selected {
        theme::rgb(0xFFFFFF)
    } else if el is Some && degrees::of(VISIBLE_BITS).below(el->0) {
        theme::rgb(0x44DD66)
    } else {
        theme::rgb(0x444444)
    }
}

/// The colour of a satellite in the list: white when selected, green when it stands above five
/// degrees.
pub fn list_color(el: Option<Degrees>, selected: bool) -> (c: Color)
    ensures
        c == list_color_spec(el, selected),
{
    if selected {
        return theme::rgb(0xFFFFFF);
    }
    match el {
        Some(e) if degrees::of(VISIBLE_BITS).lt(e) => theme::rgb(0x44DD66),
        _ => theme::rgb(0x444444),
    }
}

// ── Laws ────────────────────────────────────────────────────────────────────

/// The address of a tile is made of its zoom, column and row, in that order.
pub proof fn law_tile_address(z: u8, x: nat, y: nat)
    requires
        x <= i32::MAX,
        y <= i32::MAX,
    ensures
        ({
            let key = TileKey { z, x: x as i32, y: y as i32 };
            &&& url_text(key) == "https://tile.openstreetmap.org/"@ + text::dec(z as nat) + "/"@
                + text::dec(x) + "/"@ + text::dec(y) + ".png"@
            &&& tile_text(key) == "tile_"@ + text::dec(z as nat) + "_"@ + text::dec(x) + "_"@
                + text::dec(y)
        }),
{
}

/// Each zoom has twice as many tiles across the world as the one before; the first has one.
pub proof fn law_world_doubles(z: nat)
    ensures
        world(0) == 1,
        world(z + 1) == 2 * world(z),
        world(z) == pow2(z),
    decreases z,
{
    lemma2_to64();
    lemma_pow2_unfold(z + 1);
    if z > 0 {
        law_world_doubles((z - 1) as nat);
        lemma_pow2_unfold(z);
    }
}

/// The tiles in view reach one further than half the window to every side of the centre: every tile
/// of that rectangle is there, row by row from the upper left, no column is left out, and rows
/// beyond a pole show the last row before it.
pub proof fn law_view_is_covered(z: u8, cx: int, cy: int, tx: int, ty: int, dx: int, dy: int)
    requires
        0 <= tx,
        0 <= ty,
        -(tx / 2) - 1 <= dx <= tx / 2 + 1,
        -(ty / 2) - 1 <= dy <= ty / 2 + 1,
    ensures
        ({
            let w = 2 * (tx / 2) + 3;
            let h = 2 * (ty / 2) + 3;
            let k = (dy + ty / 2 + 1) * w + (dx + tx / 2 + 1);
            let v = tiles_in_view(z, cx, cy, tx, ty);
            &&& v.len() == w * h
            &&& 0 <= k < v.len()
            &&& v[k] == tile_at(z, cx, cy, dx, dy)
        }),
        tile_at(z, cx, cy, dx, dy).z == z,
        i32::MIN <= cx + dx <= i32::MAX ==> tile_at(z, cx, cy, dx, dy).x == cx + dx,
        z <= 30 && 0 <= cy + dy < pow2(z as nat) ==> tile_at(z, cx, cy, dx, dy).y == cy + dy,
        cy + dy < 0 ==> tile_at(z, cx, cy, dx, dy).y == 0,
        z <= 30 && cy + dy >= pow2(z as nat) ==> tile_at(z, cx, cy, dx, dy).y == pow2(z as nat) - 1,
{
    let hx = tx / 2 + 1;
    let hy = ty / 2 + 1;
    let w = 2 * hx + 1;
    let row = dy + hy;
    let col = dx + hx;
    let k = row * w + col;
    assert(0 <= k < w * (2 * hy + 1)) by (nonlinear_arith)
        requires
            k == row * w + col,
            0 <= row <= 2 * hy,
            0 <= col < w,
            w >= 1,
    ;
    assert(w * row == row * w) by (nonlinear_arith);
    vstd::arithmetic::div_mod::lemma_fundamental_div_mod_converse(k, w, row, col);
    law_world_doubles(z as nat);
    if z <= 30 {
        lemma2_to64();
        if z < 30 {
            lemma_pow2_strictly_increases(z as nat, 30);
        }
        lemma_pow2_pos(z as nat);
    }
}

/// A tile is asked for when it is neither at hand nor on its way and fewer than 24 are; then it is on
/// its way. One that has arrived no longer is, and the others still are.
pub proof fn law_tiles_on_their_way(
    a: SatMapWindow,
    key: TileKey,
    cached: bool,
    b: SatMapWindow,
    fetch: bool,
    c: SatMapWindow,
    other: TileKey,
)
    requires
        after_request(&a, key, cached, &b, fetch),
        after_tile(&b, key, &c),
    ensures
        fetch == (!cached && !a.pending_tiles@.contains(key) && a.pending_tiles@.len() < 24),
        fetch ==> b.pending_tiles@.contains(key),
        !fetch ==> b.pending_tiles == a.pending_tiles,
        !c.pending_tiles@.contains(key),
        other != key ==> c.pending_tiles@.contains(other) == a.pending_tiles@.contains(other),
{
    if fetch {
        let p = a.pending_tiles@;
        assert(p.push(key)[p.len() as int] == key);
        if other != key {
            if p.contains(other) {
                let i = choose|i: int| 0 <= i < p.len() && p[i] == other;
                assert(p.push(key)[i] == other);
            }
            if p.push(key).contains(other) {
                let i = choose|i: int| 0 <= i < p.len() + 1 && p.push(key)[i] == other;
                assert(p[i] == other);
            }
        }
    }
}

/// A change of the zoom of the tiles forgets those on their way and drops those at hand; the same
/// zoom changes nothing.
pub proof fn law_tile_zoom(a: SatMapWindow, z: u8, n: SatMapWindow, drop: bool, key: TileKey)
    requires
        after_tile_zoom(&a, z, &n, drop),
    ensures
        drop == (z != a.last_tile_z),
        n.last_tile_z == z,
        drop ==> !n.pending_tiles@.contains(key),
        !drop ==> n == a,
{
}

/// The orbits are fetched once. When they arrive the first satellite is selected unless one is; a
/// click selects the last satellite under the pointer, and beside all of them changes nothing.
pub proof fn law_satellite_selection(
    a: SatMapWindow,
    tles: Vec<TleEntry>,
    b: SatMapWindow,
    hits: Seq<usize>,
    idx: usize,
    c: SatMapWindow,
    d: SatMapWindow,
    e: SatMapWindow,
    f: SatMapWindow,
    first: bool,
    g: SatMapWindow,
    again: bool,
)
    requires
        after_tles(&a, tles, &b),
        after_click(&a, hits.push(idx), &c),
        after_click(&a, Seq::empty(), &d),
        after_select(&a, idx, &e),
        after_begin_fetch(&a, &f, first),
        after_begin_fetch(&f, &g, again),
    ensures
        b.tles == tles,
        a.selected_idx is None && tles@.len() > 0 ==> b.selected_idx == Some(0usize),
        a.selected_idx is Some || tles@.len() == 0 ==> b.selected_idx == a.selected_idx,
        c.selected_idx == Some(idx) && e.selected_idx == Some(idx),
        d == a,
        first == !a.tle_fetch_started,
        !again,
{
}

/// The centre of the map does not go beyond 85 degrees north and south, nor the zoom beyond 1.2 and
/// 800 pixels per degree.
pub proof fn law_map_limits(
    a: SatMapWindow,
    lat: Degrees,
    lon: Degrees,
    zoom: Level,
    b: SatMapWindow,
    c: SatMapWindow,
)
    requires
        after_pan(&a, lat, lon, &b),
        after_zoom(&a, zoom, &c),
        !lat.is_nan(),
        !zoom.is_nan(),
    ensures
        b.center_lon == lon,
        degrees::number_of(b.center_lat.bits) == (if degrees::number_of(lat.bits) < degrees::whole(
            -85,
        ) {
            degrees::whole(-85)
        } else if degrees::number_of(lat.bits) > degrees::whole(85) {
            degrees::whole(85)
        } else {
            degrees::number_of(lat.bits)
        }),
        level::number_of(c.zoom_ppd.bits) == (if level::number_of(zoom.bits) < level::number_of(
            0x3F99_999A,
        ) {
            level::number_of(0x3F99_999A)
        } else if level::number_of(zoom.bits) > level::whole(800) {
            level::whole(800)
        } else {
            level::number_of(zoom.bits)
        }),
        b.zoom_ppd == a.zoom_ppd && c.center_lat == a.center_lat,
{
    lemma2_to64();
    lemma2_to64_rest();
    degrees::lemma_whole(0x4055_4000_0000_0000, 85, 46);
    degrees::lemma_whole(0xC055_4000_0000_0000, -85, 46);
    degrees::law_order_is_numeric(lat, degrees::of(0xC055_4000_0000_0000));
    degrees::law_order_is_numeric(degrees::of(0x4055_4000_0000_0000), lat);
    level::lemma_whole(0x4448_0000, 800, 14);
    level::law_order_is_numeric(zoom, level::of(0x3F99_999A));
    level::law_order_is_numeric(level::of(0x4448_0000), zoom);
}

/// A satellite heard in this frame is yellow, whether selected or not; else the selected one is blue
/// and all others green.
pub proof fn law_satellite_colours(w: SatMapWindow, idx: usize)
    requires
        idx < w.tles@.len(),
    ensures
        ({
            let heard = w.flash_norad_ids@.contains(w.tles@[idx as int].norad_id);
            let c = dot_color_spec(&w, idx);
            &&& heard ==> c == (Color { r: 255, g: 255, b: 0, a: 255 })
            &&& !heard && w.selected_idx == Some(idx) ==> c == (Color {
                r: 0x4C,
                g: 0xAF,
                b: 0xFF,
                a: 255,
            })
            &&& !heard && w.selected_idx != Some(idx) ==> c == (Color {
                r: 0x88,
                g: 0xCC,
                b: 0x88,
                a: 255,
            })
        }),
{
}

/// A pass above 60 degrees is green, above 20 yellow, any other pale green. In the list the selected
/// satellite is white and one that stands above 5 degrees is green.
pub proof fn law_pass_colours(el: Degrees)
    requires
        !el.is_nan(),
    ensures
        ({
            let at = degrees::number_of(el.bits);
            let green = Color { r: 0x44, g: 0xDD, b: 0x66, a: 255 };
            &&& at > degrees::whole(60) ==> pass_color_spec(el) == green
            &&& degrees::whole(20) < at <= degrees::whole(60) ==> pass_color_spec(el) == (Color {
                r: 0xE8,
                g: 0xC5,
                b: 0x4B,
                a: 255,
            })
            &&& at <= degrees::whole(20) ==> pass_color_spec(el) == (Color {
                r: 0x88,
                g: 0xCC,
                b: 0x88,
                a: 255,
            })
            &&& list_color_spec(Some(el), true) == (Color { r: 255, g: 255, b: 255, a: 255 })
            &&& at > degrees::whole(5) ==> list_color_spec(Some(el), false) == green
            &&& at <= degrees::whole(5) ==> list_color_spec(Some(el), false) == (Color {
                r: 0x44,
                g: 0x44,
                b: 0x44,
                a: 255,
            })
            &&& list_color_spec(None, false) == (Color { r: 0x44, g: 0x44, b: 0x44, a: 255 })
        }),
{
    lemma2_to64();
    lemma2_to64_rest();
    lemma_pow2_pos(1074);
    degrees::lemma_whole(0x404E_0000_0000_0000, 60, 47);
    degrees::lemma_whole(0x4034_0000_0000_0000, 20, 48);
    degrees::lemma_whole(0x4014_0000_0000_0000, 5, 50);
    degrees::law_order_is_numeric(degrees::of(0x404E_0000_0000_0000), el);
    degrees::law_order_is_numeric(degrees::of(0x4034_0000_0000_0000), el);
    degrees::law_order_is_numeric(degrees::of(0x4014_0000_0000_0000), el);
}

/// A track is computed at first and then again once it is more than a minute old.
pub proof fn law_track_each_minute(nanos: u128)
    ensures
        track_is_stale_spec(None),
        track_is_stale_spec(Some(nanos)) <==> nanos > 60 * 1_000_000_000,
{
}

/// The wait for a pass is told in full minutes below an hour, and in hours and minutes from there on.
pub proof fn law_wait_in_minutes(h: nat, m: nat, s: nat)
    requires
        m < 60,
        s < 60,
        3_600 * h + 60 * m + s <= u64::MAX,
    ensures
        ({
            let secs = (3_600 * h + 60 * m + s) as u64;
            &&& h == 0 ==> wait_text(Some(secs)) == "in "@ + text::dec(m) + "m"@
            &&& h > 0 ==> wait_text(Some(secs)) == "in "@ + text::dec(h) + "h"@ + text::dec(m)
                + "m"@
        }),
        wait_text(None) == "now"@,
{
    let t: nat = 3_600 * h + 60 * m + s;
    assert(t / 60 == 60 * h + m);
    assert((60 * h + m) / 60 == h);
    assert((60 * h + m) % 60 == m);
}

/// A pass is told by its two times of day and its length in full minutes; one that ends before it
/// begins has none.
pub proof fn law_pass_length(aos: nat, m: nat, s: nat)
    requires
        s < 60,
    ensures
        pass_text(aos, aos + 60 * m + s) == "AOS "@ + orbcomm::clock_text(aos) + " → LOS "@
            + orbcomm::clock_text(aos + 60 * m + s) + "  ("@ + text::dec(m) + "m)"@,
        aos > s ==> pass_text(aos, (aos - s) as nat) == "AOS "@ + orbcomm::clock_text(aos)
            + " → LOS "@ + orbcomm::clock_text((aos - s) as nat) + "  ("@ + text::dec(0) + "m)"@,
{
    assert((60 * m + s) / 60 == m as int);
}

/// A new map shows its place at 4 pixels per degree, with no satellite selected, nothing on its way
/// and the orbits still to be fetched; at the end of each frame no satellite flashes any more.
pub proof fn law_new_map(w: SatMapWindow, lat: Degrees, lon: Degrees, a: SatMapWindow, n: SatMapWindow)
    requires
        is_new_map(w, lat, lon),
        after_frame_end(&a, &n),
    ensures
        w.center_lat == lat && w.center_lon == lon,
        level::number_of(w.zoom_ppd.bits) == level::whole(4),
        w.selected_idx is None && w.pending_tiles@.len() == 0 && w.tles@.len() == 0,
        !w.tle_fetch_started && w.viewport_open,
        n.flash_norad_ids@.len() == 0,
        n.selected_idx == a.selected_idx && n.tles == a.tles,
{
    lemma2_to64();
    level::lemma_whole(0x4080_0000, 4, 21);
}

} // verus!
