//! State of the aircraft map window.

use std::collections::HashMap;

use vstd::arithmetic::power2::*;
use vstd::prelude::*;
use vstd::std_specs::hash::*;
use vstd::string::*;

use crate::aircraft;
use crate::aircraft::AircraftTrail;
use crate::aircraft::Position;
use crate::app::AdsbPanel;
use crate::app::SdrApp;
use crate::config::AppConfig;
use crate::config::MapConfig;
use crate::config::UiConfig;
use crate::degrees;
use crate::degrees::Degrees;
use crate::level;
use crate::level::Level;
use crate::text;

verus! {

broadcast use group_hash_axioms;

/// 41.5
pub const HOME_LAT_BITS: u64 = 0x4044_C000_0000_0000;

/// -81.7
pub const HOME_LON_BITS: u64 = 0xC054_6CCC_CCCC_CCCD;

/// 85.0
pub const LAT_MAX_BITS: u64 = 0x4055_4000_0000_0000;

/// -85.0
pub const LAT_MIN_BITS: u64 = 0xC055_4000_0000_0000;

/// 12.0 pixels per degree.
pub const DEFAULT_ZOOM_BITS: u32 = 0x4140_0000;

/// 1.2 pixels per degree: the whole world.
pub const MIN_ZOOM_BITS: u32 = 0x3F99_999A;

/// 800.0 pixels per degree.
pub const MAX_ZOOM_BITS: u32 = 0x4448_0000;

/// 100.0
pub const FINE_GRID_BITS: u32 = 0x42C8_0000;

/// 20.0
pub const MID_GRID_BITS: u32 = 0x41A0_0000;

pub struct AdsbMapWindow {
    pub center_lat: Degrees,
    pub center_lon: Degrees,
    /// Pixels per degree of longitude.
    pub zoom_ppd: Level,
    /// Address of the aircraft whose details are shown.
    pub selected_icao: Option<u32>,
    /// Trail of each aircraft, by its address.
    pub trails: HashMap<u32, AircraftTrail>,
    /// The centre of the map is to become the home location.
    pub set_home_pending: bool,
    /// Cleared when the window is closed.
    pub viewport_open: bool,
}

/// What a click on the map does.
pub open spec fn after_click(
    a: &AdsbMapWindow,
    hits: Seq<u32>,
    inside: bool,
    n: &AdsbMapWindow,
    r: Option<u32>,
) -> bool {
    &&& r == (if hits.len() > 0 {
        Some(hits.last())
    } else {
        None
    })
    &&& *n == (AdsbMapWindow {
        selected_icao: if hits.len() > 0 {
            Some(hits.last())
        } else if inside {
            None
        } else {
            a.selected_icao
        },
        ..*a
    })
}

/// What the home button does.
pub open spec fn after_home(
    a: &AdsbMapWindow,
    lat: Degrees,
    lon: Degrees,
    n: &AdsbMapWindow,
) -> bool {
    *n == (AdsbMapWindow {
        center_lat: lat,
        center_lon: lon,
        zoom_ppd: level::of(DEFAULT_ZOOM_BITS),
        ..*a
    })
}

/// What moving the map does.
pub open spec fn after_pan(
    a: &AdsbMapWindow,
    lat: Degrees,
    lon: Degrees,
    n: &AdsbMapWindow,
) -> bool {
    *n == (AdsbMapWindow {
        center_lat: lat.within(degrees::of(LAT_MIN_BITS), degrees::of(LAT_MAX_BITS)),
        center_lon: lon,
        ..*a
    })
}

/// What setting the zoom does.
pub open spec fn after_zoom(a: &AdsbMapWindow, zoom: Level, n: &AdsbMapWindow) -> bool {
    *n == (AdsbMapWindow {
        zoom_ppd: zoom.within(level::of(MIN_ZOOM_BITS), level::of(MAX_ZOOM_BITS)),
        ..*a
    })
}

/// What noting a position does.
pub open spec fn after_record(
    a: &AdsbMapWindow,
    icao: u32,
    p: Position,
    near: bool,
    now_ms: u64,
    n: &AdsbMapWindow,
) -> bool {
    &&& n.wf()
    &&& *n == (AdsbMapWindow { trails: n.trails, ..*a })
    &&& n.trails@.dom() == a.trails@.dom().insert(icao)
    &&& forall|other: u32|
        other != icao && #[trigger] a.trails@.dom().contains(other) ==> n.trails@[other] == a.trails@[other]
    &&& if near && a.trail_of(icao).len() > 0 {
        &&& n.trail_of(icao) == a.trail_of(icao)
        &&& n.times_of(icao) == a.times_of(icao)
    } else {
        &&& n.trail_of(icao) == aircraft::pushed(
            a.trail_of(icao),
            p,
            aircraft::MAX_TRAIL as int,
        )
        &&& n.times_of(icao) == aircraft::pushed(
            a.times_of(icao),
            now_ms,
            aircraft::MAX_TRAIL as int,
        )
    }
}

/// What forgetting old trails does.
pub open spec fn after_retain(a: &AdsbMapWindow, active: Seq<u32>, n: &AdsbMapWindow) -> bool {
    &&& n.wf()
    &&& *n == (AdsbMapWindow { trails: n.trails, ..*a })
    &&& forall|icao: u32|
        #![trigger n.trails@.dom().contains(icao)]
        n.trails@.dom().contains(icao) <==> (a.trails@.dom().contains(
            icao,
        ) && active.contains(icao))
    &&& forall|icao: u32| #[trigger]
        n.trails@.dom().contains(icao) ==> n.trails@[icao] == a.trails@[icao]
}

/// Distance of the grid lines in degrees.
pub open spec fn grid_deg_spec(a: &AdsbMapWindow) -> u32 {
    if level::of(FINE_GRID_BITS).below(a.zoom_ppd) {
        1u32
    } else if level::of(MID_GRID_BITS).below(a.zoom_ppd) {
        5
    } else {
        10
    }
}

/// What ending the selection does.
pub open spec fn after_deselect(a: &AdsbMapWindow, n: &AdsbMapWindow) -> bool {
    *n == (AdsbMapWindow { selected_icao: None, ..*a })
}

/// What the pin button does.
pub open spec fn after_pin(a: &AdsbMapWindow, n: &AdsbMapWindow) -> bool {
    *n == (AdsbMapWindow { set_home_pending: true, ..*a })
}

impl AdsbMapWindow {
    pub open spec fn wf(self) -> bool {
        forall|icao: u32| #[trigger]
            self.trails@.dom().contains(icao) ==> self.trails@[icao].wf()
    }

    /// The points of the trail of an aircraft; none when it has no trail.
    pub open spec fn trail_of(self, icao: u32) -> Seq<Position> {
        if self.trails@.dom().contains(icao) {
            self.trails@[icao].points@
        } else {
            Seq::empty()
        }
    }

    /// When the points of the trail of an aircraft were taken.
    pub open spec fn times_of(self, icao: u32) -> Seq<u64> {
        if self.trails@.dom().contains(icao) {
            self.trails@[icao].times@
        } else {
            Seq::empty()
        }
    }

    /// A map of Cleveland.
    pub fn new() -> (w: AdsbMapWindow)
        ensures
            w.is_fresh(
                degrees::of(HOME_LAT_BITS),
                degrees::of(HOME_LON_BITS),
                level::of(DEFAULT_ZOOM_BITS),
            ),
            w.wf(),
    {
        AdsbMapWindow::with_viewport(
            degrees::of(HOME_LAT_BITS),
            degrees::of(HOME_LON_BITS),
            level::of(DEFAULT_ZOOM_BITS),
        )
    }

    /// An open window without trails or selection.
    pub open spec fn is_fresh(self, lat: Degrees, lon: Degrees, zoom: Level) -> bool {
        &&& self.center_lat == lat
        &&& self.center_lon == lon
        &&& self.zoom_ppd == zoom
        &&& self.selected_icao is None
        &&& self.trails@ == Map::<u32, AircraftTrail>::empty()
        &&& !self.set_home_pending
        &&& self.viewport_open
    }

    pub fn with_viewport(lat: Degrees, lon: Degrees, zoom: Level) -> (w: AdsbMapWindow)
        ensures
            w.is_fresh(lat, lon, zoom),
            w.wf(),
    {
        AdsbMapWindow {
            center_lat: lat,
            center_lon: lon,
            zoom_ppd: zoom,
            selected_icao: None,
            trails: HashMap::new(),
            set_home_pending: false,
            viewport_open: true,
        }
    }

    #[verifier::allow_in_spec]
    pub fn center_lat(&self) -> Degrees
        returns
            self.center_lat,
    {
        self.center_lat
    }

    #[verifier::allow_in_spec]
    pub fn center_lon(&self) -> Degrees
        returns
            self.center_lon,
    {
        self.center_lon
    }

    #[verifier::allow_in_spec]
    pub fn zoom_ppd(&self) -> Level
        returns
            self.zoom_ppd,
    {
        self.zoom_ppd
    }

    // ── Trails ──────────────────────────────────────────────────────────────

    /// The newest point of the trail of an aircraft.
    pub fn last_point(&self, icao: u32) -> (r: Option<Position>)
        ensures
            r == (if self.trail_of(icao).len() == 0 {
                None
            } else {
                Some(self.trail_of(icao).last())
            }),
    {
        match self.trails.get(&icao) {
            Some(t) => t.last(),
            None => None,
        }
    }

    /// Notes where an aircraft is; `near` says that it has hardly moved since the newest point of
    /// its trail.
    pub fn record(&mut self, icao: u32, p: Position, near: bool, now_ms: u64)
        requires
            old(self).wf(),
        ensures
            after_record(old(self), icao, p, near, now_ms, final(self)),
    {
        let mut trail: AircraftTrail = match self.trails.remove(&icao) {
            Some(t) => t,
            None => AircraftTrail::new(),
        };
        trail.push(p, near, now_ms);
        self.trails.insert(icao, trail);
        assert(self.trails@.dom() =~= old(self).trails@.dom().insert(icao));
    }

    /// Forgets the trails of aircraft that are not in `active`.
    pub fn retain(&mut self, active: &Vec<u32>)
        requires
            old(self).wf(),
        ensures
            after_retain(old(self), active@, final(self)),
    {
        let mut kept: HashMap<u32, AircraftTrail> = HashMap::new();
        let ghost before = self.trails@;
        let mut i: usize = 0;
        while i < active.len()
            invariant
                i <= active.len(),
                *self == (AdsbMapWindow { trails: self.trails, ..*old(self) }),
                before == old(self).trails@,
                forall|icao: u32|
                    #![trigger kept@.dom().contains(icao)]
                    kept@.dom().contains(icao) <==> (before.dom().contains(icao)
                        && active@.take(i as int).contains(icao)),
                forall|icao: u32| #[trigger]
                    kept@.dom().contains(icao) ==> kept@[icao] == before[icao],
                forall|icao: u32|
                    #![trigger self.trails@.dom().contains(icao)]
                    self.trails@.dom().contains(icao) <==> (before.dom().contains(icao)
                        && !kept@.dom().contains(icao)),
                forall|icao: u32| #[trigger]
                    self.trails@.dom().contains(icao) ==> self.trails@[icao] == before[icao],
            decreases active.len() - i,
        {
            let icao: u32 = active[i];
            proof {
                let head = active@.take(i as int);
                assert(active@.take(i + 1) =~= head.push(icao));
                assert forall|x: u32| #[trigger]
                    active@.take(i + 1).contains(x) <==> (head.contains(x) || x == icao) by {
                    if head.contains(x) {
                        let k = choose|k: int| 0 <= k < head.len() && head[k] == x;
                        assert(head.push(icao)[k] == x);
                    }
                    if x == icao {
                        assert(head.push(icao)[i as int] == x);
                    }
                }
            }
            if let Some(t) = self.trails.remove(&icao) {
                kept.insert(icao, t);
            }
            i += 1;
        }
        assert(active@.take(active@.len() as int) =~= active@);
        self.trails = kept;
    }

    // ── Selection ───────────────────────────────────────────────────────────

    /// The escape key, and the button of the detail panel.
    pub fn deselect(&mut self)
        ensures
            after_deselect(old(self), final(self)),
    {
        self.selected_icao = None;
    }

    /// A click on the map: the last of the aircraft under the pointer is selected, and returned. A
    /// click beside all aircraft, `inside` the map, ends the selection.
    pub fn click(&mut self, hits: &Vec<u32>, inside: bool) -> (r: Option<u32>)
        ensures
            after_click(old(self), hits@, inside, final(self), r),
    {
        if hits.len() > 0 {
            let icao: u32 = hits[hits.len() - 1];
            self.selected_icao = Some(icao);
            return Some(icao);
        }
        if inside {
            self.selected_icao = None;
        }
        None
    }

    // ── Viewport ────────────────────────────────────────────────────────────

    /// The home button.
    pub fn go_home(&mut self, lat: Degrees, lon: Degrees)
        ensures
            after_home(old(self), lat, lon, final(self)),
    {
        self.center_lat = lat;
        self.center_lon = lon;
        self.zoom_ppd = level::of(DEFAULT_ZOOM_BITS);
    }

    /// The pin button.
    pub fn pin_home(&mut self)
        ensures
            after_pin(old(self), final(self)),
    {
        self.set_home_pending = true;
    }

    /// Moves the centre; the map ends at 85 degrees north and south.
    pub fn pan(&mut self, lat: Degrees, lon: Degrees)
        ensures
            after_pan(old(self), lat, lon, final(self)),
    {
        self.center_lat = lat.clamp(degrees::of(LAT_MIN_BITS), degrees::of(LAT_MAX_BITS));
        self.center_lon = lon;
    }

    /// Sets the zoom within its limits.
    pub fn set_zoom(&mut self, zoom: Level)
        ensures
            after_zoom(old(self), zoom, final(self)),
    {
        self.zoom_ppd = zoom.clamp(level::of(MIN_ZOOM_BITS), level::of(MAX_ZOOM_BITS));
    }

    /// Distance of the grid lines in degrees.
    pub fn grid_deg(&self) -> (r: u32)
        ensures
            r == grid_deg_spec(self),
    {
        if level::of(FINE_GRID_BITS).lt(self.zoom_ppd) {
            1
        } else if level::of(MID_GRID_BITS).lt(self.zoom_ppd) {
            5
        } else {
            10
        }
    }
}

/// The number of aircraft in the toolbar.
pub fn count_text(n: usize) -> (r: String)
    ensures
        r@ == "  "@ + text::dec(n as nat) + " aircraft"@,
{
    let mut s: String = text::owned("  ");
    text::push_dec(&mut s, n as u64);
    s.append(" aircraft");
    s
}

// ── Settings ────────────────────────────────────────────────────────────────

/// The settings of the map after a frame in which it is `shown` and has `moved`.
pub open spec fn map_settings(
    c: MapConfig,
    map: &AdsbMapWindow,
    shown: bool,
    moved: bool,
) -> MapConfig {
    let homed = if map.set_home_pending {
        MapConfig { home_lat: map.center_lat, home_lon: map.center_lon, ..c }
    } else {
        c
    };
    let placed = if shown && moved {
        MapConfig { lat: map.center_lat, lon: map.center_lon, zoom: map.zoom_ppd, ..homed }
    } else {
        homed
    };
    MapConfig { show: shown, ..placed }
}

impl MapConfig {
    fn take(&mut self, map: &AdsbMapWindow, shown: bool, moved: bool)
        ensures
            *final(self) == map_settings(*old(self), map, shown, moved),
    {
        if map.set_home_pending {
            self.home_lat = map.center_lat;
            self.home_lon = map.center_lon;
        }
        if shown && moved {
            self.lat = map.center_lat;
            self.lon = map.center_lon;
            self.zoom = map.zoom_ppd;
        }
        self.show = shown;
    }
}

/// What a frame takes over from the map window.
pub open spec fn after_map_sync(
    a: &SdrApp,
    map: &AdsbMapWindow,
    moved: bool,
    n: &SdrApp,
    map_after: &AdsbMapWindow,
) -> bool {
    &&& *map_after == (AdsbMapWindow {
        viewport_open: true,
        set_home_pending: false,
        ..*map
    })
    &&& ({
        let shown = a.adsb.show_map && map.viewport_open;
        *n == (SdrApp {
            config: AppConfig {
                ui: UiConfig {
                    adsb_map: map_settings(
                        a.config.ui.adsb_map,
                        map,
                        shown,
                        moved,
                    ),
                    ..a.config.ui
                },
                ..a.config
            },
            config_dirty: a.config_dirty || map.set_home_pending || (shown
                && moved) || (!shown && a.config.ui.adsb_map.show),
            adsb: AdsbPanel { show_map: shown, ..a.adsb },
            ..*a
        })
    })
}

impl SdrApp {
    /// Takes over what happened in the map window: that it was closed, a new home location, and
    /// the viewport when it `moved` noticeably from the stored one.
    pub fn sync_adsb_map(&mut self, map: &mut AdsbMapWindow, moved: bool)
        ensures
            after_map_sync(old(self), old(map), moved, final(self), final(map)),
    {
        let shown: bool = self.adsb.show_map && map.viewport_open;
        if map.set_home_pending || (shown && moved) || (!shown && self.config.ui.adsb_map.show) {
            self.config_dirty = true;
        }
        self.config.ui.adsb_map.take(map, shown, moved);
        self.adsb.show_map = shown;
        map.viewport_open = true;
        map.set_home_pending = false;
    }
}

/// A map reopened from the settings shows what it showed when it was last moved.
pub proof fn law_viewport_restored(c: MapConfig, map: &AdsbMapWindow, w: AdsbMapWindow)
    requires
        w.is_fresh(
            map_settings(c, map, true, true).lat,
            map_settings(c, map, true, true).lon,
            map_settings(c, map, true, true).zoom,
        ),
    ensures
        w.center_lat == map.center_lat,
        w.center_lon == map.center_lon,
        w.zoom_ppd == map.zoom_ppd,
{
}

// ── Laws ────────────────────────────────────────────────────────────────────

/// A click selects the last of the aircraft under the pointer and returns it; inside the map but
/// beside all aircraft it ends the selection, outside the map it leaves it. Nothing else changes.
pub proof fn law_click_selects(
    a: AdsbMapWindow,
    hits: Seq<u32>,
    icao: u32,
    inside: bool,
    b: AdsbMapWindow,
    r: Option<u32>,
    c: AdsbMapWindow,
    q: Option<u32>,
)
    requires
        after_click(&a, hits.push(icao), inside, &b, r),
        after_click(&a, Seq::empty(), inside, &c, q),
    ensures
        r == Some(icao) && b.selected_icao == Some(icao),
        q is None,
        inside ==> c.selected_icao is None,
        !inside ==> c.selected_icao == a.selected_icao,
        b.center_lat == a.center_lat && b.center_lon == a.center_lon && b.zoom_ppd == a.zoom_ppd,
{
}

/// The centre goes where the map is moved, but not beyond 85 degrees north and south; the zoom stays
/// between 1.2 and 800 pixels per degree; the home button goes to its place at 12 pixels per degree.
pub proof fn law_viewport_limits(
    a: AdsbMapWindow,
    lat: Degrees,
    lon: Degrees,
    zoom: Level,
    b: AdsbMapWindow,
    c: AdsbMapWindow,
    d: AdsbMapWindow,
)
    requires
        after_pan(&a, lat, lon, &b),
        after_zoom(&a, zoom, &c),
        after_home(&a, lat, lon, &d),
        !lat.is_nan(),
        !zoom.is_nan(),
    ensures
        b.center_lon == lon,
        degrees::number_of(b.center_lat.bits) == (if degrees::number_of(lat.bits) < degrees::whole(
            -85,
        ) {
            degrees::whole(-85)
        } else if degrees::number_of(lat.bits) > degrees::whole(85) {
            degrees::whole(85)
        } else {
            degrees::number_of(lat.bits)
        }),
        level::number_of(c.zoom_ppd.bits) == (if level::number_of(zoom.bits) < level::number_of(
            0x3F99_999A,
        ) {
            level::number_of(0x3F99_999A)
        } else if level::number_of(zoom.bits) > level::whole(800) {
            level::whole(800)
        } else {
            level::number_of(zoom.bits)
        }),
        level::is_nearest(0x3F99_999A, 6, 5),
        d.center_lat == lat && d.center_lon == lon,
        level::number_of(d.zoom_ppd.bits) == level::whole(12),
        b.zoom_ppd == a.zoom_ppd && c.center_lat == a.center_lat && c.center_lon == a.center_lon,
        b.selected_icao == a.selected_icao && c.selected_icao == a.selected_icao
            && d.selected_icao == a.selected_icao,
{
    lemma2_to64();
    lemma2_to64_rest();
    degrees::lemma_whole(0x4055_4000_0000_0000, 85, 46);
    degrees::lemma_whole(0xC055_4000_0000_0000, -85, 46);
    degrees::law_order_is_numeric(lat, degrees::of(0xC055_4000_0000_0000));
    degrees::law_order_is_numeric(degrees::of(0x4055_4000_0000_0000), lat);
    level::lemma_whole(0x4448_0000, 800, 14);
    level::lemma_whole(0x4140_0000, 12, 20);
    level::law_order_is_numeric(zoom, level::of(0x3F99_999A));
    level::law_order_is_numeric(level::of(0x4448_0000), zoom);
}

/// The closer the view, the finer the grid: every degree above 100 pixels per degree, every five
/// above 20, every ten below.
pub proof fn law_grid_gets_finer(w: AdsbMapWindow)
    requires
        !w.zoom_ppd.is_nan(),
    ensures
        ({
            let zoom = level::number_of(w.zoom_ppd.bits);
            &&& zoom > level::whole(100) ==> grid_deg_spec(&w) == 1
            &&& level::whole(20) < zoom <= level::whole(100) ==> grid_deg_spec(&w) == 5
            &&& zoom <= level::whole(20) ==> grid_deg_spec(&w) == 10
        }),
{
    lemma2_to64();
    level::lemma_whole(0x42C8_0000, 100, 17);
    level::lemma_whole(0x41A0_0000, 20, 19);
    lemma_pow2_pos(149);
    level::law_order_is_numeric(level::of(0x42C8_0000), w.zoom_ppd);
    level::law_order_is_numeric(level::of(0x41A0_0000), w.zoom_ppd);
}

/// A trail ends at the position noted last, with its time, unless the aircraft has hardly moved; it
/// holds at most 120 positions, each with a time, of which the oldest goes first. Other trails stay.
pub proof fn law_trail_grows(
    a: AdsbMapWindow,
    icao: u32,
    p: Position,
    near: bool,
    now_ms: u64,
    n: AdsbMapWindow,
    other: u32,
)
    requires
        a.wf(),
        after_record(&a, icao, p, near, now_ms, &n),
    ensures
        n.trail_of(icao).len() <= 120,
        n.trail_of(icao).len() == n.times_of(icao).len(),
        !near || a.trail_of(icao).len() == 0 ==> n.trail_of(icao).len() > 0 && n.trail_of(
            icao,
        ).last() == p && n.times_of(icao).last() == now_ms,
        !near && a.trail_of(icao).len() < 120 ==> n.trail_of(icao) == a.trail_of(icao).push(p)
            && n.times_of(icao) == a.times_of(icao).push(now_ms),
        !near && a.trail_of(icao).len() == 120 ==> n.trail_of(icao) == a.trail_of(
            icao,
        ).drop_first().push(p) && n.times_of(icao) == a.times_of(icao).drop_first().push(now_ms),
        near && a.trail_of(icao).len() > 0 ==> n.trail_of(icao) == a.trail_of(icao),
        other != icao ==> n.trail_of(other) == a.trail_of(other),
        n.selected_icao == a.selected_icao,
{
    assert(n.trails@.dom().contains(other) == (a.trails@.dom().contains(other) || other == icao));
    if a.trails@.dom().contains(icao) {
        assert(a.trails@[icao].wf());
    }
}

/// Forgetting keeps the trails of the aircraft that are still heard, as they are, and no others.
pub proof fn law_only_active_trails(
    a: AdsbMapWindow,
    active: Seq<u32>,
    n: AdsbMapWindow,
    icao: u32,
)
    requires
        after_retain(&a, active, &n),
    ensures
        active.contains(icao) ==> n.trail_of(icao) == a.trail_of(icao) && n.times_of(icao)
            == a.times_of(icao),
        !active.contains(icao) ==> n.trail_of(icao).len() == 0,
        n.selected_icao == a.selected_icao,
{
    assert(n.trails@.dom().contains(icao) <==> (a.trails@.dom().contains(icao) && active.contains(
        icao,
    )));
}

/// A frame takes over from the window that it was closed, a place chosen as home, and where it shows
/// the map when that moved; then the window asks for nothing any more. The settings are saved if one
/// of them changed.
pub proof fn law_window_is_taken_over(
    a: SdrApp,
    map: AdsbMapWindow,
    moved: bool,
    n: SdrApp,
    map_after: AdsbMapWindow,
)
    requires
        after_map_sync(&a, &map, moved, &n, &map_after),
    ensures
        map_after.viewport_open && !map_after.set_home_pending,
        n.adsb.show_map == (a.adsb.show_map && map.viewport_open),
        n.config.ui.adsb_map.show == n.adsb.show_map,
        map.set_home_pending ==> n.config.ui.adsb_map.home_lat == map.center_lat
            && n.config.ui.adsb_map.home_lon == map.center_lon && n.config_dirty,
        !map.set_home_pending ==> n.config.ui.adsb_map.home_lat == a.config.ui.adsb_map.home_lat
            && n.config.ui.adsb_map.home_lon == a.config.ui.adsb_map.home_lon,
        n.adsb.show_map && moved ==> n.config.ui.adsb_map.lat == map.center_lat
            && n.config.ui.adsb_map.lon == map.center_lon && n.config.ui.adsb_map.zoom
            == map.zoom_ppd && n.config_dirty,
        !n.adsb.show_map || !moved ==> n.config.ui.adsb_map.lat == a.config.ui.adsb_map.lat
            && n.config.ui.adsb_map.lon == a.config.ui.adsb_map.lon && n.config.ui.adsb_map.zoom
            == a.config.ui.adsb_map.zoom,
        !n.adsb.show_map && a.config.ui.adsb_map.show ==> n.config_dirty,
{
}

/// A new map shows 41.5 degrees north and 81.7 degrees west at 12 pixels per degree.
pub proof fn law_first_view(w: AdsbMapWindow)
    requires
        w.is_fresh(
            degrees::of(HOME_LAT_BITS),
            degrees::of(HOME_LON_BITS),
            level::of(DEFAULT_ZOOM_BITS),
        ),
    ensures
        2 * degrees::number_of(w.center_lat.bits) == degrees::whole(83),
        w.center_lon.bits >= 0x8000_0000_0000_0000,
        degrees::is_nearest((w.center_lon.bits - 0x8000_0000_0000_0000) as u64, 817, 10),
        level::number_of(w.zoom_ppd.bits) == level::whole(12),
        w.viewport_open && w.selected_icao is None,
{
    lemma2_to64();
    lemma2_to64_rest();
    level::lemma_whole(0x4140_0000, 12, 20);
    lemma_pow2_adds(45, 1028);
    lemma_pow2_adds(1, 1073);
    lemma_pow2_unfold(1074);
    assert(degrees::number_of(0x4044_C000_0000_0000) == 0x14_C000_0000_0000 * pow2(1027));
    lemma_pow2_adds(46, 1027);
    let p = pow2(1027) as int;
    let q = pow2(46) as int;
    assert(0x14_C000_0000_0000 * p == 83 * (q * p)) by (nonlinear_arith)
        requires
            q == 0x4000_0000_0000,
    ;
}

/// Ending the selection and pinning the home leave the view alone.
pub proof fn law_selection_and_home(a: AdsbMapWindow, b: AdsbMapWindow, c: AdsbMapWindow)
    requires
        after_deselect(&a, &b),
        after_pin(&a, &c),
    ensures
        b.selected_icao is None && b.set_home_pending == a.set_home_pending,
        c.set_home_pending && c.selected_icao == a.selected_icao,
        b.center_lat == a.center_lat && b.zoom_ppd == a.zoom_ppd && b.trails == a.trails,
        c.center_lat == a.center_lat && c.zoom_ppd == a.zoom_ppd && c.trails == a.trails,
{
}

} // verus!
