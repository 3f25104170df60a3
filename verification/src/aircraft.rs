//! Aircraft on the map: their colours, labels and trails.

use vstd::arithmetic::power2::*;
use vstd::prelude::*;
use vstd::string::*;

use crate::degrees::Degrees;
use crate::level;
use crate::level::Level;
use crate::single;
use crate::single::Single;
use crate::text;
use crate::theme;
use crate::theme::Color;

verus! {

// ── Colour by altitude ──────────────────────────────────────────────────────

/// Ground.
pub const ALT_GROUND: u32 = 0x73C991;

/// A third of the way up.
pub const ALT_LOW: u32 = 0xE8C54B;

/// Two thirds of the way up.
pub const ALT_MID: u32 = 0xE08C4E;

/// 45 000 feet and above.
pub const ALT_HIGH: u32 = 0xFF5555;

/// 0.33 in single precision, times `2^25`; 0.66 has the same numerator over `2^24`.
pub const THIRD_NUM: i128 = 11072963;

/// 0.34 in single precision, times `2^25`.
pub const REST_NUM: i128 = 11408507;

/// The colour a fraction `t` of the way from `a` to `b`, channel by channel.
pub open spec fn mixed(a: Color, b: Color, t: (int, nat)) -> Color {
    Color::from_rgb(
        theme::lerped(a.r, b.r, t),
        theme::lerped(a.g, b.g, t),
        theme::lerped(a.b, b.b, t),
    )
}

pub fn lerp_color(a: Color, b: Color, t: Single) -> (c: Color)
    requires
        t.shift <= 72,
        0 <= t.num <= 0x100_0000,
    ensures
        c == mixed(a, b, t@),
{
    Color::from_rgb(
        theme::lerp_u8(a.r, b.r, t),
        theme::lerp_u8(a.g, b.g, t),
        theme::lerp_u8(a.b, b.b, t),
    )
}

/// The altitude that the colour shows: an unknown one counts as ground, the scale ends at
/// 45 000 feet.
pub open spec fn shown_altitude(alt_ft: Option<i32>) -> nat {
    match alt_ft {
        Some(a) => if a < 0 {
            0
        } else if a > 45_000 {
            45_000
        } else {
            a as nat
        },
        None => 0,
    }
}

/// The gradient from green over yellow and orange to red, in single precision.
pub open spec fn gradient(t: (int, nat)) -> Color {
    let third = (THIRD_NUM as int, 25nat);
    let two_thirds = (THIRD_NUM as int, 24nat);
    if single::less(t, third) {
        mixed(theme::rgb(ALT_GROUND), theme::rgb(ALT_LOW), single::over(t, third))
    } else if single::less(t, two_thirds) {
        mixed(theme::rgb(ALT_LOW), theme::rgb(ALT_MID), theme::position(t, third, third))
    } else {
        mixed(
            theme::rgb(ALT_MID),
            theme::rgb(ALT_HIGH),
            theme::position(t, two_thirds, (REST_NUM as int, 25)),
        )
    }
}

pub fn altitude_color(alt_ft: Option<i32>) -> (c: Color)
    ensures
        c == gradient(single::quotient(shown_altitude(alt_ft), 45_000)),
{
    let alt: u128 = match alt_ft {
        Some(a) => if a < 0 {
            0
        } else if a > 45_000 {
            45_000
        } else {
            a as u128
        },
        None => 0,
    };
    let t: Single = single::ratio(alt, 45_000);
    let third: Single = Single { num: THIRD_NUM, shift: 25 };
    let two_thirds: Single = Single { num: THIRD_NUM, shift: 24 };
    let rest: Single = Single { num: REST_NUM, shift: 25 };
    proof {
        lemma2_to64();
        lemma2_to64_rest();
        if t.shift > 39 {
            if t.shift > 40 {
                lemma_pow2_strictly_increases(40, t.shift as nat);
            }
        }
        assert(theme::is_small(t));
        assert(theme::is_small(third));
        assert(theme::is_small(two_thirds));
        assert(theme::is_span(third));
        assert(theme::is_span(rest));
    }
    if t.less(third) {
        let u: Single = theme::fraction_of(t, third);
        lerp_color(theme::rgb(ALT_GROUND), theme::rgb(ALT_LOW), u)
    } else if t.less(two_thirds) {
        let u: Single = theme::ramp_position(t, third, third);
        lerp_color(theme::rgb(ALT_LOW), theme::rgb(ALT_MID), u)
    } else {
        let u: Single = theme::ramp_position(t, two_thirds, rest);
        lerp_color(theme::rgb(ALT_MID), theme::rgb(ALT_HIGH), u)
    }
}

// ── Telemetry texts ─────────────────────────────────────────────────────────

/// Feet in whole metres, cut towards zero.
pub open spec fn metres(ft: int) -> int {
    if ft < 0 {
        -((-ft) * 3048 / 10_000)
    } else {
        ft * 3048 / 10_000
    }
}

/// An altitude, such as `38000 ft / 11582 m`.
pub open spec fn altitude_text(ft: int) -> Seq<char> {
    text::dec_signed(ft) + " ft / "@ + text::dec_signed(metres(ft)) + " m"@
}

pub fn format_altitude(ft: i32) -> (r: String)
    ensures
        r@ == altitude_text(ft as int),
{
    let mut s: String = String::new();
    text::push_dec_signed(&mut s, ft as i64);
    s.append(" ft / ");
    let wide: i64 = ft as i64;
    let m: i64 = if wide < 0 {
        -((-wide) * 3048 / 10_000)
    } else {
        wide * 3048 / 10_000
    };
    text::push_dec_signed(&mut s, m);
    s.append(" m");
    assert(s@ =~= altitude_text(ft as int));
    s
}

/// The arrow and the colour of a vertical rate: level within 64 feet per minute.
pub open spec fn vert_rate_look(fpm: int, muted: Color) -> (Seq<char>, Color) {
    if fpm > 64 {
        ("▲"@, theme::rgb(0x73C991))
    } else if fpm < -64 {
        ("▼"@, theme::rgb(0xFF8855))
    } else {
        ("━"@, muted)
    }
}

pub fn vert_rate_display(fpm: i32, muted: Color) -> (r: (&'static str, Color))
    ensures
        (r.0@, r.1) == vert_rate_look(fpm as int, muted),
{
    if fpm > 64 {
        ("▲", theme::rgb(0x73C991))
    } else if fpm < -64 {
        ("▼", theme::rgb(0xFF8855))
    } else {
        ("━", muted)
    }
}

/// A vertical rate, such as `▲ +640 fpm`.
pub open spec fn vert_rate_text(fpm: int, muted: Color) -> Seq<char> {
    vert_rate_look(fpm, muted).0 + " "@ + text::dec_plus(fpm) + " fpm"@
}

pub fn format_vert_rate(fpm: i32, muted: Color) -> (r: String)
    ensures
        r@ == vert_rate_text(fpm as int, muted),
{
    let look: (&'static str, Color) = vert_rate_display(fpm, muted);
    let mut s: String = text::owned(look.0);
    s.append(" ");
    text::push_dec_plus(&mut s, fpm as i64);
    s.append(" fpm");
    assert(s@ =~= vert_rate_text(fpm as int, muted));
    s
}

/// 5.0
pub const FRESH_BITS: u32 = 0x40A0_0000;

/// 15.0
pub const STALE_BITS: u32 = 0x4170_0000;

/// The colour of the time since the last message.
pub open spec fn age_color_spec(secs: Level, value: Color) -> Color {
    if secs.below(level::of(FRESH_BITS)) {
        theme::rgb(0x73C991)
    } else if secs.below(level::of(STALE_BITS)) {
        value
    } else {
        theme::rgb(0xE8C54B)
    }
}

/// The colour of the time since the last message: green below 5 seconds, yellow from 15.
pub fn age_color(secs: Level, value: Color) -> (c: Color)
    ensures
        c == age_color_spec(secs, value),
{
    if secs.lt(level::of(FRESH_BITS)) {
        theme::rgb(0x73C991)
    } else if secs.lt(level::of(STALE_BITS)) {
        value
    } else {
        theme::rgb(0xE8C54B)
    }
}

/// An address in base 16, six digits.
pub fn icao_text(icao: u32) -> (r: String)
    ensures
        r@ == text::hex(icao as nat, 6),
{
    let mut s: String = String::new();
    text::push_hex(&mut s, icao as u64, 6);
    assert(s@ =~= text::hex(icao as nat, 6));
    s
}

/// The label of an aircraft on the map: its callsign, else its address.
pub open spec fn label_text(icao: u32, callsign: Option<String>) -> Seq<char> {
    if callsign is Some && text::trimmed(callsign->0@).len() > 0 {
        text::trimmed(callsign->0@)
    } else {
        text::hex(icao as nat, 6)
    }
}

pub fn aircraft_label(icao: u32, callsign: &Option<String>) -> (r: String)
    ensures
        r@ == label_text(icao, *callsign),
{
    if let Some(c) = callsign {
        let t: String = text::trim(c.as_str());
        if t.as_str().unicode_len() > 0 {
            return t;
        }
    }
    icao_text(icao)
}

/// The callsign in the detail panel.
pub fn detail_callsign(callsign: &Option<String>) -> (r: String)
    ensures
        r@ == (if callsign is Some {
            text::trimmed(callsign->0@)
        } else {
            "—"@
        }),
{
    match callsign {
        Some(c) => text::trim(c.as_str()),
        None => text::owned("—"),
    }
}

/// The altitude beside an aircraft, in hundreds of feet, cut towards zero.
pub open spec fn height_text(ft: int) -> Seq<char> {
    text::dec_signed(
        if ft < 0 {
            -((-ft) / 100 * 100)
        } else {
            ft / 100 * 100
        },
    ) + "ft"@
}

pub fn height_label(ft: i32) -> (r: String)
    ensures
        r@ == height_text(ft as int),
{
    let wide: i64 = ft as i64;
    let cut: i64 = if wide < 0 {
        -((-wide) / 100 * 100)
    } else {
        wide / 100 * 100
    };
    let mut s: String = String::new();
    text::push_dec_signed(&mut s, cut);
    s.append("ft");
    assert(s@ =~= height_text(ft as int));
    s
}

// ── Trails ──────────────────────────────────────────────────────────────────

/// Most points kept of a trail.
pub const MAX_TRAIL: usize = 120;

#[derive(Clone, Copy, PartialEq, Eq, Structural, Debug)]
pub struct Position {
    pub lat: Degrees,
    pub lon: Degrees,
}

/// Where an aircraft has been, oldest first.
pub struct AircraftTrail {
    pub points: Vec<Position>,
    /// When each point was taken, in milliseconds.
    pub times: Vec<u64>,
}

/// The last `max` elements of `s` with `x` behind it.
pub open spec fn pushed<T>(s: Seq<T>, x: T, max: int) -> Seq<T> {
    if s.len() >= max {
        s.drop_first().push(x)
    } else {
        s.push(x)
    }
}

impl AircraftTrail {
    pub open spec fn wf(self) -> bool {
        self.points@.len() == self.times@.len() && self.points@.len() <= MAX_TRAIL
    }

    pub fn new() -> (t: AircraftTrail)
        ensures
            t.wf(),
            t.points@ == Seq::<Position>::empty(),
            t.times@ == Seq::<u64>::empty(),
    {
        AircraftTrail { points: Vec::new(), times: Vec::new() }
    }

    /// The newest point.
    pub fn last(&self) -> (r: Option<Position>)
        ensures
            r == (if self.points@.len() == 0 {
                None
            } else {
                Some(self.points@.last())
            }),
    {
        if self.points.len() == 0 {
            None
        } else {
            Some(self.points[self.points.len() - 1])
        }
    }

    /// Adds a point, unless it is `near` the newest one. A full trail loses its oldest point.
    pub fn push(&mut self, p: Position, near: bool, now_ms: u64)
        requires
            old(self).wf(),
        ensures
            final(self).wf(),
            if near && old(self).points@.len() > 0 {
                *final(self) == *old(self)
            } else {
                &&& final(self).points@ == pushed(old(self).points@, p, MAX_TRAIL as int)
                &&& final(self).times@ == pushed(old(self).times@, now_ms, MAX_TRAIL as int)
            },
    {
        if near && self.points.len() > 0 {
            return;
        }
        if self.points.len() >= MAX_TRAIL {
            self.points.remove(0);
            self.times.remove(0);
            assert(self.points@ =~= old(self).points@.drop_first());
            assert(self.times@ =~= old(self).times@.drop_first());
        }
        self.points.push(p);
        self.times.push(now_ms);
    }
}

/// The point added last is the newest of a trail. A trail that was not full keeps all that it held,
/// a full one all but its oldest point.
pub proof fn law_trail_keeps_newest(s: Seq<Position>, p: Position)
    requires
        s.len() <= MAX_TRAIL,
    ensures
        pushed(s, p, MAX_TRAIL as int).len() <= MAX_TRAIL,
        pushed(s, p, MAX_TRAIL as int).last() == p,
        s.len() < MAX_TRAIL ==> pushed(s, p, MAX_TRAIL as int).drop_last() == s,
        s.len() == MAX_TRAIL ==> pushed(s, p, MAX_TRAIL as int).drop_last() == s.drop_first(),
{
    assert(s.push(p).drop_last() =~= s);
    if s.len() > 0 {
        assert(s.drop_first().push(p).drop_last() =~= s.drop_first());
    }
}

// ── Laws of labels and colours ──────────────────────────────────────────────

/// The altitude that a colour shows is the one reported, within 0 and 45 000 feet; an unknown one
/// counts as ground.
pub proof fn law_altitude_scale(ft: i32)
    ensures
        0 <= ft <= 45_000 ==> shown_altitude(Some(ft)) == ft,
        ft < 0 ==> shown_altitude(Some(ft)) == 0,
        ft > 45_000 ==> shown_altitude(Some(ft)) == 45_000,
        shown_altitude(None) == 0,
{
}

/// Metres are feet times 0.3048, cut towards zero: never more than the feet make, less than one
/// metre short of it, and the same below the ground as above.
pub proof fn law_metres_from_feet(ft: nat)
    ensures
        10_000 * metres(ft as int) <= 3_048 * ft < 10_000 * (metres(ft as int) + 1),
        metres(-(ft as int)) == -metres(ft as int),
        altitude_text(ft as int) == text::dec(ft) + " ft / "@ + text::dec(metres(ft as int) as nat)
            + " m"@,
{
}

/// The height beside an aircraft is in full hundreds of feet, cut towards zero.
pub proof fn law_height_in_hundreds(ft: nat)
    ensures
        ({
            let h = (ft - ft % 100) as nat;
            &&& height_text(ft as int) == text::dec(h) + "ft"@
            &&& h > 0 ==> height_text(-(ft as int)) == seq!['-'] + text::dec(h) + "ft"@
        }),
{
    let h = (ft - ft % 100) as nat;
    assert(ft / 100 * 100 == h);
    if h > 0 {
        assert(height_text(-(ft as int)) =~= seq!['-'] + text::dec(h) + "ft"@);
    }
}

/// An aircraft climbs above 64 feet per minute, sinks below -64 and flies level within, and its
/// label says so with an arrow; rates of opposite sign have opposite arrows.
pub proof fn law_vertical_arrows(fpm: int, muted: Color)
    ensures
        fpm > 64 ==> vert_rate_look(fpm, muted) == ("▲"@, (Color {
            r: 0x73,
            g: 0xC9,
            b: 0x91,
            a: 255,
        })),
        fpm < -64 ==> vert_rate_look(fpm, muted) == ("▼"@, (Color {
            r: 0xFF,
            g: 0x88,
            b: 0x55,
            a: 255,
        })),
        -64 <= fpm <= 64 ==> vert_rate_look(fpm, muted) == ("━"@, muted),
        fpm >= 0 ==> vert_rate_text(fpm, muted) == vert_rate_look(fpm, muted).0 + " "@ + seq!['+']
            + text::dec(fpm as nat) + " fpm"@,
        fpm < 0 ==> vert_rate_text(fpm, muted) == vert_rate_look(fpm, muted).0 + " "@ + seq!['-']
            + text::dec((-fpm) as nat) + " fpm"@,
{
    let head = vert_rate_look(fpm, muted).0 + " "@;
    if fpm >= 0 {
        assert(vert_rate_text(fpm, muted) =~= head + seq!['+'] + text::dec(fpm as nat)
            + " fpm"@);
    } else {
        assert(vert_rate_text(fpm, muted) =~= head + seq!['-'] + text::dec((-fpm) as nat)
            + " fpm"@);
    }
}

/// A message is fresh for 5 seconds, and old from 15 seconds on.
pub proof fn law_message_age(secs: Level, value: Color)
    requires
        !secs.is_nan(),
    ensures
        ({
            let age = level::number_of(secs.bits);
            &&& age < level::whole(5) ==> age_color_spec(secs, value) == (Color {
                r: 0x73,
                g: 0xC9,
                b: 0x91,
                a: 255,
            })
            &&& level::whole(5) <= age < level::whole(15) ==> age_color_spec(secs, value) == value
            &&& level::whole(15) <= age ==> age_color_spec(secs, value) == (Color {
                r: 0xE8,
                g: 0xC5,
                b: 0x4B,
                a: 255,
            })
        }),
{
    lemma2_to64();
    lemma_pow2_pos(149);
    level::lemma_whole(0x40A0_0000, 5, 21);
    level::lemma_whole(0x4170_0000, 15, 20);
    level::law_order_is_numeric(secs, level::of(0x40A0_0000));
    level::law_order_is_numeric(secs, level::of(0x4170_0000));
}

/// An aircraft is labelled with its callsign without the blanks around it, and by its address in six
/// digits of base 16 when it has none.
pub proof fn law_aircraft_label(icao: u32, callsign: Option<String>)
    ensures
        callsign is None ==> label_text(icao, callsign) == text::hex(icao as nat, 6),
        callsign is Some && text::trimmed(callsign->0@).len() > 0 ==> label_text(icao, callsign)
            == text::trimmed(callsign->0@),
        callsign is Some && text::trimmed(callsign->0@).len() == 0 ==> label_text(icao, callsign)
            == text::hex(icao as nat, 6),
        label_text(icao, callsign).len() > 0,
{
    text::law_hex_digits(icao as nat, 6);
}

/// A trail of fewer than 120 positions keeps all that it held and the new one; one of 120 loses its
/// oldest.
pub proof fn law_trail_of_120(s: Seq<Position>, p: Position)
    ensures
        s.len() < 120 ==> pushed(s, p, MAX_TRAIL as int) == s.push(p),
        s.len() == 120 ==> pushed(s, p, MAX_TRAIL as int) == s.drop_first().push(p),
{
}

/// The gradient has its colours at the ends of its three parts: green on the ground, yellow where the
/// second part begins and orange where the third does.
pub proof fn law_gradient_colours()
    ensures
        gradient((0, 0)) == (Color { r: 0x73, g: 0xC9, b: 0x91, a: 255 }),
        gradient((11072963, 25)) == (Color { r: 0xE8, g: 0xC5, b: 0x4B, a: 255 }),
        gradient((11072963, 24)) == (Color { r: 0xE0, g: 0x8C, b: 0x4E, a: 255 }),
        2 * (100 * 11072963 - 33 * pow2(25)) <= 100,
        2 * (33 * pow2(25) - 100 * 11072963) <= 100,
{
    lemma2_to64();
    assert(pow2(25) == 0x200_0000 && pow2(24) == 0x100_0000 && pow2(0) == 1 && pow2(1) == 2);
    let third = (11072963int, 25nat);
    let two = (11072963int, 24nat);
    assert(single::less((0, 0), third));
    assert(!single::less(third, third));
    assert(single::less(third, two));
    assert(!single::less(two, third));
    assert(!single::less(two, two));
    lemma_nothing_over(third, third);
    lemma_nothing_over(two, (11408507, 25));
    lemma_unmoved(theme::rgb(ALT_GROUND), theme::rgb(ALT_LOW));
    lemma_unmoved(theme::rgb(ALT_LOW), theme::rgb(ALT_MID));
    lemma_unmoved(theme::rgb(ALT_MID), theme::rgb(ALT_HIGH));
}

/// No way up a part is no fraction of it.
proof fn lemma_nothing_over(t: (int, nat), span: (int, nat))
    requires
        t == (11072963int, 25nat) || t == (11072963int, 24nat),
        span == (11072963int, 25nat) || span == (11408507int, 25nat),
    ensures
        theme::position(t, t, span) == (0int, 0nat),
        single::over((0, 0), span) == (0int, 0nat),
{
    lemma2_to64();
    single::law_small_numbers_are_exact(0);
    let p = pow2((t.1 - t.1) as nat) as int;
    assert(t.0 * p + (-t.0) * p == 0) by (nonlinear_arith);
    assert(single::minus(t, t) == (0int, t.1));
    let m = single::common((0, t.1), span);
    assert(0 * pow2((m - t.1) as nat) == 0) by (nonlinear_arith);
    assert(0 * pow2(span.1) == 0) by (nonlinear_arith);
    lemma_zero_quotient(single::abs(single::widened(span, m)));
    lemma_zero_quotient(single::abs(single::widened(span, span.1)));
}

proof fn lemma_zero_quotient(d: nat)
    requires
        d > 0,
    ensures
        single::quotient(0, d) == (0int, 0nat),
{
    lemma2_to64();
    assert(0 * pow2(0) == 0) by (nonlinear_arith);
    crate::decimal::lemma_round_exact(0, d);
    assert(0 * d == 0) by (nonlinear_arith);
}

proof fn lemma_unmoved(a: Color, b: Color)
    requires
        a.a == 255,
    ensures
        mixed(a, b, (0, 0)) == a,
{
    theme::law_interpolation_ends(a.r, b.r, (0, 0));
    theme::law_interpolation_ends(a.g, b.g, (0, 0));
    theme::law_interpolation_ends(a.b, b.b, (0, 0));
}

} // verus!
