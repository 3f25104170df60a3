//! The Orbcomm decoder and its log of satellite telemetry.

use vstd::arithmetic::power2::*;
use vstd::prelude::*;
use vstd::string::*;

use crate::adsb_decoder;
use crate::single;
use crate::single::Single;
use crate::status;
use crate::stream;
use crate::stream::StreamEvent;
use crate::stream::StreamStep;
use crate::text;
use crate::theme;
use crate::theme::Color;

verus! {

/// The rate that the demodulator works at: ten samples a symbol.
pub const SAMPLE_RATE_HZ: u32 = 48_000;

/// The downlink on which the decoder runs.
pub const DOWNLINK_HZ: u64 = 137_500_000;

/// Entries that wait for the window at most.
pub const LOG_CAPACITY: usize = 256;

/// Symbols a second.
pub const SYMBOL_RATE: u32 = 4_800;

/// Decimation factor that brings `sample_rate` down to about 48 kHz.
pub fn decimation_factor(sample_rate: u32) -> (r: usize)
    ensures
        r == adsb_decoder::thinning(sample_rate as nat, 48_000),
        r >= 1,
{
    let n: u32 = sample_rate / SAMPLE_RATE_HZ;
    if n == 0 {
        1
    } else {
        n as usize
    }
}

/// Samples a symbol after decimation, in single precision.
pub open spec fn symbol_length(sample_rate: nat) -> (int, nat) {
    let rate = (single::round24(sample_rate as int), 0nat);
    let factor = (adsb_decoder::thinning(sample_rate, 48_000) as int, 0nat);
    single::over(single::over(rate, factor), (4_800, 0))
}

pub fn effective_sps(sample_rate: u32) -> (r: Single)
    ensures
        r@ == symbol_length(sample_rate as nat),
{
    let n: usize = decimation_factor(sample_rate);
    let rate: Single = Single::rounded(sample_rate);
    let factor: Single = Single { num: n as i128, shift: 0 };
    proof {
        lemma2_to64();
        lemma_thinned(sample_rate as nat, 48_000);
        assert(rate.num * pow2(0) == rate.num) by (nonlinear_arith)
            requires
                pow2(0) == 1,
        ;
        assert(factor.num * pow2(0) == factor.num) by (nonlinear_arith)
            requires
                pow2(0) == 1,
        ;
    }
    let effective: Single = rate.over(factor);
    let symbol: Single = Single { num: SYMBOL_RATE as i128, shift: 0 };
    proof {
        let m = single::common(effective@, symbol@);
        let p = pow2(m);
        if m < 23 {
            lemma_pow2_strictly_increases(m, 23);
        }
        lemma_pow2_pos(m);
        assert(single::widened(symbol@, m) == 4_800 * p);
        assert(single::widened(effective@, m) == effective.num * pow2(0));
    }
    effective.over(symbol)
}

/// Decimation leaves less than twice the target rate.
proof fn lemma_thinned(rate: nat, target: nat)
    requires
        target >= 1,
    ensures
        rate < 2 * target * adsb_decoder::thinning(rate, target),
        rate >= target ==> rate >= adsb_decoder::thinning(rate, target) * target,
{
    vstd::arithmetic::div_mod::lemma_fundamental_div_mod(rate as int, target as int);
    let q = rate / target;
    let r = (rate % target) as int;
    assert(q >= 1 ==> rate < 2 * target * q && rate >= q * target) by (nonlinear_arith)
        requires
            rate == target * q + r,
            0 <= r < target,
    ;
    assert(q == 0 ==> rate < target) by (nonlinear_arith)
        requires
            rate == target * q + r,
            0 <= r < target,
    ;
}

// ── Packets ─────────────────────────────────────────────────────────────────

#[derive(Clone, Copy, PartialEq, Eq, Structural, Debug)]
pub enum PacketType {
    SatelliteTelemetry { sat_id: u8, utc_seconds: u32, channel: u8 },
    SubscriberMessage,
    Ack,
    Unknown(u16),
}

#[derive(Clone, Copy, PartialEq, Eq, Structural, Debug)]
pub struct OrbcommPacket {
    pub packet_type: PacketType,
    /// The checksum of the frame was right.
    pub crc_ok: bool,
}

/// A decoded frame in the log.
#[derive(Clone, Copy, PartialEq, Eq, Structural, Debug)]
pub struct OrbcommLogEntry {
    /// When it was decoded, in seconds since 1970; unknown when the clock stands before that.
    pub received_at: Option<u64>,
    pub packet: OrbcommPacket,
    /// Where the receiver was tuned to.
    pub freq_hz: u64,
}

/// State of the decoder.
pub struct OrbcommDecoder {
    pub running: bool,
    /// Frames whose checksum was right.
    pub frame_count: u64,
    /// All frames.
    pub raw_frame_count: u64,
    pub sample_rate: u32,
    /// Where the receiver is tuned to.
    pub freq_hz: u64,
}

/// What a received frame does.
pub open spec fn after_frame(
    a: &OrbcommDecoder,
    packet: Option<OrbcommPacket>,
    received_at: Option<u64>,
    n: &OrbcommDecoder,
    r: Option<OrbcommLogEntry>,
) -> bool {
    &&& *n == (OrbcommDecoder {
        raw_frame_count: adsb_decoder::counted(a.raw_frame_count, 1),
        frame_count: if packet is Some && packet->0.crc_ok {
            adsb_decoder::counted(a.frame_count, 1)
        } else {
            a.frame_count
        },
        ..*a
    })
    &&& r == match packet {
        Some(p) => Some(
            OrbcommLogEntry { received_at, packet: p, freq_hz: a.freq_hz },
        ),
        None => None,
    }
}

impl OrbcommDecoder {
    pub fn start(sample_rate: u32, freq_hz: u64) -> (d: OrbcommDecoder)
        ensures
            d == (OrbcommDecoder {
                running: true,
                frame_count: 0,
                raw_frame_count: 0,
                sample_rate,
                freq_hz,
            }),
    {
        OrbcommDecoder { running: true, frame_count: 0, raw_frame_count: 0, sample_rate, freq_hz }
    }

    /// Asks the worker to end: its next step is the last.
    pub fn stop(&mut self)
        ensures
            *final(self) == stopped(*old(self)),
    {
        self.running = false;
    }

    /// The worker's next step after a read of the stream. The decoder no longer runs once the
    /// worker is told to end.
    pub fn take_event(&mut self, event: StreamEvent) -> (step: StreamStep)
        ensures
            step == stream::step_of(old(self).running, event, true),
            *final(self) == (if step == StreamStep::Exit {
                stopped(*old(self))
            } else {
                *old(self)
            }),
            step == StreamStep::Exit ==> !final(self).running,
    {
        let step: StreamStep = stream::next_step(self.running, event, true);
        if step == StreamStep::Exit {
            self.running = false;
        }
        step
    }

    #[verifier::allow_in_spec]
    pub fn is_running(&self) -> bool
        returns
            self.running,
    {
        self.running
    }

    #[verifier::allow_in_spec]
    pub fn frames_decoded(&self) -> u64
        returns
            self.frame_count,
    {
        self.frame_count
    }

    #[verifier::allow_in_spec]
    pub fn raw_frames(&self) -> u64
        returns
            self.raw_frame_count,
    {
        self.raw_frame_count
    }

    /// Counts a frame. One that could be parsed gives an entry for the log.
    pub fn frame_received(
        &mut self,
        packet: Option<OrbcommPacket>,
        received_at: Option<u64>,
    ) -> (r: Option<OrbcommLogEntry>)
        ensures
            after_frame(old(self), packet, received_at, final(self), r),
    {
        self.raw_frame_count = self.raw_frame_count.wrapping_add(1);
        match packet {
            Some(p) => {
                if p.crc_ok {
                    self.frame_count = self.frame_count.wrapping_add(1);
                }
                Some(OrbcommLogEntry { received_at, packet: p, freq_hz: self.freq_hz })
            },
            None => None,
        }
    }
}

/// The decoder after it was asked to end.
pub open spec fn stopped(d: OrbcommDecoder) -> OrbcommDecoder {
    OrbcommDecoder { running: false, ..d }
}

/// A stopped decoder stays stopped: whatever its worker reads next, it ends. Stopping it again
/// changes nothing.
pub proof fn law_stop_ends_the_worker(d: OrbcommDecoder, event: StreamEvent)
    ensures
        !stopped(d).running,
        stopped(d).sample_rate == d.sample_rate,
        stopped(stopped(d)) == stopped(d),
        stream::step_of(stopped(d).running, event, true) == StreamStep::Exit,
{
}

/// Whether the decoder is to run.
pub open spec fn should_run_spec(
    is_running: bool,
    center_freq_hz: u64,
    sample_rate_sps: u32,
) -> bool {
    is_running && center_freq_hz == DOWNLINK_HZ && sample_rate_sps > 0
}

/// Whether the decoder is to run: the receiver runs and stands on the downlink, at a known rate.
pub fn should_run(is_running: bool, center_freq_hz: u64, sample_rate_sps: u32) -> (r: bool)
    ensures
        r == should_run_spec(is_running, center_freq_hz, sample_rate_sps),
{
    is_running && center_freq_hz == DOWNLINK_HZ && sample_rate_sps > 0
}

/// Whether the oldest entry makes room for a new one.
pub open spec fn drops_oldest_spec(waiting: usize) -> bool {
    waiting >= LOG_CAPACITY
}

/// Whether the oldest of the `waiting` entries makes room for a new one.
pub fn drops_oldest(waiting: usize) -> (r: bool)
    ensures
        r == drops_oldest_spec(waiting),
{
    waiting >= LOG_CAPACITY
}

// ── Log ─────────────────────────────────────────────────────────────────────

/// The name of a satellite.
pub open spec fn sat_text(id: u8) -> Option<Seq<char>> {
    match id {
        1 => Some("OG2-01"@),
        2 => Some("OG2-02"@),
        3 => Some("OG2-03"@),
        4 => Some("OG2-04"@),
        5 => Some("OG2-05"@),
        6 => Some("OG2-06"@),
        7 => Some("OG2-07"@),
        8 => Some("OG2-08"@),
        9 => Some("OG2-09"@),
        10 => Some("OG2-10"@),
        11 => Some("OG2-11"@),
        12 => Some("OG2-12"@),
        13 => Some("OG2-13"@),
        14 => Some("OG2-14"@),
        15 => Some("OG2-15"@),
        16 => Some("OG2-16"@),
        17 => Some("OG2-17"@),
        18 => Some("OG2-18"@),
        _ => None,
    }
}

pub fn sat_name(id: u8) -> (r: Option<&'static str>)
    ensures
        match r {
            Some(s) => sat_text(id) == Some(s@),
            None => sat_text(id) is None,
        },
{
    match id {
        1 => Some("OG2-01"),
        2 => Some("OG2-02"),
        3 => Some("OG2-03"),
        4 => Some("OG2-04"),
        5 => Some("OG2-05"),
        6 => Some("OG2-06"),
        7 => Some("OG2-07"),
        8 => Some("OG2-08"),
        9 => Some("OG2-09"),
        10 => Some("OG2-10"),
        11 => Some("OG2-11"),
        12 => Some("OG2-12"),
        13 => Some("OG2-13"),
        14 => Some("OG2-14"),
        15 => Some("OG2-15"),
        16 => Some("OG2-16"),
        17 => Some("OG2-17"),
        18 => Some("OG2-18"),
        _ => None,
    }
}

/// The time of day of a number of seconds since 1970.
pub open spec fn clock_text(secs: nat) -> Seq<char> {
    text::dec_zero(secs / 3600 % 24, 2) + ":"@ + text::dec_zero(secs / 60 % 60, 2) + ":"@
        + text::dec_zero(secs % 60, 2)
}

pub fn format_utc_hms(secs: u64) -> (r: String)
    ensures
        r@ == clock_text(secs as nat),
{
    let mut s: String = String::new();
    text::push_dec_zero(&mut s, secs / 3600 % 24, 2);
    s.append(":");
    text::push_dec_zero(&mut s, secs / 60 % 60, 2);
    s.append(":");
    text::push_dec_zero(&mut s, secs % 60, 2);
    assert(s@ =~= clock_text(secs as nat));
    s
}

/// The time of day with its zone.
pub fn format_utc(secs: u32) -> (r: String)
    ensures
        r@ == clock_text(secs as nat) + " UTC"@,
{
    let mut s: String = format_utc_hms(secs as u64);
    s.append(" UTC");
    s
}

/// The time of a log entry.
pub open spec fn stamp_text(received_at: Option<u64>) -> Seq<char> {
    match received_at {
        Some(secs) => clock_text(secs as nat),
        None => "??:??:??"@,
    }
}

/// The text of a log row.
pub open spec fn row_text(entry: OrbcommLogEntry) -> Seq<char> {
    let stamp = stamp_text(entry.received_at);
    match entry.packet.packet_type {
        PacketType::SatelliteTelemetry { sat_id, utc_seconds, channel } => stamp + "  "@ + (
        match sat_text(sat_id) {
            Some(name) => name,
            None => "Sat#"@ + text::hex(sat_id as nat, 2),
        }) + "  ch"@ + text::dec(channel as nat) + "  "@ + clock_text(utc_seconds as nat)
            + " UTC"@ + (if entry.packet.crc_ok {
            Seq::<char>::empty()
        } else {
            " [bad FCS]"@
        }),
        PacketType::SubscriberMessage => stamp + "  subscriber msg (encrypted)"@,
        PacketType::Ack => stamp + "  ack"@,
        PacketType::Unknown(tw) => stamp + "  unknown type 0x"@ + text::hex(tw as nat, 4),
    }
}

pub open spec fn row_color(entry: OrbcommLogEntry) -> Color {
    match entry.packet.packet_type {
        PacketType::SatelliteTelemetry { .. } => theme::rgb(theme::STATUS_OK),
        PacketType::SubscriberMessage => theme::rgb(theme::TEXT_MUTED),
        PacketType::Ack => theme::rgb(theme::TEXT_MUTED),
        PacketType::Unknown(_) => theme::rgb(theme::TEXT_DISABLED),
    }
}

/// A row of the log.
pub struct LogRow {
    pub text: String,
    pub color: Color,
    /// The frequency, behind the text.
    pub freq: String,
}

pub fn log_row(entry: &OrbcommLogEntry) -> (r: LogRow)
    ensures
        r.text@ == row_text(*entry),
        r.color == row_color(*entry),
        r.freq@ == "@ "@ + status::frequency_text(entry.freq_hz as nat),
{
    let mut s: String = match entry.received_at {
        Some(secs) => format_utc_hms(secs),
        None => text::owned("??:??:??"),
    };
    let color: Color = match entry.packet.packet_type {
        PacketType::SatelliteTelemetry { sat_id, utc_seconds, channel } => {
            s.append("  ");
            match sat_name(sat_id) {
                Some(name) => s.append(name),
                None => {
                    s.append("Sat#");
                    text::push_hex(&mut s, sat_id as u64, 2);
                },
            }
            s.append("  ch");
            text::push_dec(&mut s, channel as u64);
            s.append("  ");
            let utc: String = format_utc(utc_seconds);
            s.append(utc.as_str());
            if !entry.packet.crc_ok {
                s.append(" [bad FCS]");
            }
            theme::rgb(theme::STATUS_OK)
        },
        PacketType::SubscriberMessage => {
            s.append("  subscriber msg (encrypted)");
            theme::rgb(theme::TEXT_MUTED)
        },
        PacketType::Ack => {
            s.append("  ack");
            theme::rgb(theme::TEXT_MUTED)
        },
        PacketType::Unknown(tw) => {
            s.append("  unknown type 0x");
            text::push_hex(&mut s, tw as u64, 4);
            theme::rgb(theme::TEXT_DISABLED)
        },
    };
    assert(s@ =~= row_text(*entry));
    let mut freq: String = text::owned("@ ");
    let label: String = status::format_frequency(entry.freq_hz);
    freq.append(label.as_str());
    LogRow { text: s, color, freq }
}

/// The status line above the log: the colour of the dot, the word, and the frame count of a
/// running decoder.
pub struct DecoderStatus {
    pub dot: Color,
    pub word: &'static str,
    pub frames: Option<String>,
}

pub fn decoder_status(running: bool, frames: u64) -> (r: DecoderStatus)
    ensures
        r.dot == (if running {
            theme::rgb(0x73C991)
        } else {
            theme::rgb(0x6A7A8A)
        }),
        r.word@ == (if running {
            "Live"@
        } else {
            "Off"@
        }),
        match r.frames {
            Some(s) => running && s@ == text::dec(frames as nat) + " frames"@,
            None => !running,
        },
{
    if running {
        let mut s: String = text::dec_text(frames);
        s.append(" frames");
        DecoderStatus { dot: theme::rgb(0x73C991), word: "Live", frames: Some(s) }
    } else {
        DecoderStatus { dot: theme::rgb(0x6A7A8A), word: "Off", frames: None }
    }
}

/// A day later the clock shows the same time.
pub proof fn law_clock_repeats(secs: nat)
    ensures
        clock_text(secs + 86_400) == clock_text(secs),
{
    assert((secs + 86_400) / 3600 % 24 == secs / 3600 % 24) by (nonlinear_arith);
    assert((secs + 86_400) / 60 % 60 == secs / 60 % 60) by (nonlinear_arith);
    assert((secs + 86_400) % 60 == secs % 60) by (nonlinear_arith);
}

// ── Laws ────────────────────────────────────────────────────────────────────

/// The decoder runs while the receiver does, tuned to exactly 137.5 MHz and with a known sample rate.
pub proof fn law_runs_on_the_downlink(is_running: bool, hz: u64, rate: u32)
    ensures
        should_run_spec(true, 137_500_000, rate) == (rate > 0),
        hz != 137_500_000 ==> !should_run_spec(is_running, hz, rate),
        !should_run_spec(false, hz, rate),
{
}

/// The log holds up to 256 entries; only then does a new one cost the oldest.
pub proof fn law_log_holds_256(waiting: usize)
    ensures
        waiting < 256 ==> !drops_oldest_spec(waiting),
        waiting >= 256 ==> drops_oldest_spec(waiting),
{
}

/// Every frame counts; it counts as decoded if its checksum was right, and it is logged if it could
/// be parsed, with the time at which it came and the frequency at which it was received.
pub proof fn law_frames_are_counted(
    d: OrbcommDecoder,
    packet: Option<OrbcommPacket>,
    at: Option<u64>,
    n: OrbcommDecoder,
    r: Option<OrbcommLogEntry>,
)
    requires
        after_frame(&d, packet, at, &n, r),
        d.raw_frame_count < u64::MAX,
        d.frame_count < u64::MAX,
    ensures
        n.raw_frame_count == d.raw_frame_count + 1,
        packet is Some && packet->0.crc_ok ==> n.frame_count == d.frame_count + 1,
        packet is None || !packet->0.crc_ok ==> n.frame_count == d.frame_count,
        packet is None ==> r is None,
        packet is Some ==> r is Some && r->0.packet == packet->0 && r->0.received_at == at
            && r->0.freq_hz == d.freq_hz,
        n.running == d.running && n.freq_hz == d.freq_hz && n.sample_rate == d.sample_rate,
{
}

/// The satellites from 1 to 18 are named after their numbers, in two digits; no other has a name.
pub proof fn law_satellite_names(id: u8)
    ensures
        1 <= id <= 18 ==> sat_text(id) == Some("OG2-"@ + text::dec_zero(id as nat, 2)),
        id == 0 || id > 18 ==> sat_text(id) is None,
{
    if 1 <= id <= 18 {
        reveal_with_fuel(text::dec, 3);
        reveal_strlit("OG2-");
        lemma_sat_names(id);
    }
}

proof fn lemma_sat_names(id: u8)
    requires
        1 <= id <= 18,
    ensures
        sat_text(id) is Some,
        (sat_text(id)->0) == "OG2-"@ + text::dec_zero(id as nat, 2),
{
    reveal_with_fuel(text::dec, 3);
    reveal_strlit("OG2-");
    reveal_strlit("OG2-01");
    reveal_strlit("OG2-02");
    reveal_strlit("OG2-03");
    reveal_strlit("OG2-04");
    reveal_strlit("OG2-05");
    reveal_strlit("OG2-06");
    reveal_strlit("OG2-07");
    reveal_strlit("OG2-08");
    reveal_strlit("OG2-09");
    reveal_strlit("OG2-10");
    reveal_strlit("OG2-11");
    reveal_strlit("OG2-12");
    reveal_strlit("OG2-13");
    reveal_strlit("OG2-14");
    reveal_strlit("OG2-15");
    reveal_strlit("OG2-16");
    reveal_strlit("OG2-17");
    reveal_strlit("OG2-18");
    let d = text::dec(id as nat);
    assert(id < 10 ==> d =~= seq![text::digit_char(id as nat)]);
    assert(id >= 10 ==> d =~= seq!['1', text::digit_char((id - 10) as nat)]);
    let z = text::dec_zero(id as nat, 2);
    assert(z.len() == 2);
    assert(z[0] == (if id < 10 {
        '0'
    } else {
        '1'
    }));
    assert(z[1] == text::digit_char((id % 10) as nat));
    let s = sat_text(id)->0;
    let want = "OG2-"@ + z;
    assert(s.len() == 6 && want.len() == 6);
    assert(s[0] == want[0] && s[1] == want[1] && s[2] == want[2] && s[3] == want[3]);
    assert(s[4] == want[4] && s[5] == want[5]);
    assert(s =~= want);
}

/// The clock shows hours below 24, minutes and seconds below 60, two digits each, that add up to the
/// seconds since midnight.
pub proof fn law_clock_adds_up(h: nat, m: nat, s: nat)
    requires
        h < 24,
        m < 60,
        s < 60,
    ensures
        clock_text(3_600 * h + 60 * m + s) == text::dec_zero(h, 2) + ":"@ + text::dec_zero(m, 2)
            + ":"@ + text::dec_zero(s, 2),
        clock_text(3_600 * h + 60 * m + s).len() == 6 + 2 * ":"@.len(),
{
    let t = 3_600 * h + 60 * m + s;
    assert(t / 3_600 == h);
    assert(t / 60 == 60 * h + m);
    assert((60 * h + m) % 60 == m);
    assert(t % 60 == s);
    assert(h % 24 == h);
    reveal_with_fuel(text::dec, 3);
    assert(text::dec_zero(h, 2).len() == 2);
    assert(text::dec_zero(m, 2).len() == 2);
    assert(text::dec_zero(s, 2).len() == 2);
}

/// A log row starts with the time at which the frame came; telemetry names its satellite or, for
/// want of a name, its number in base 16, and is marked when its checksum was wrong.
pub proof fn law_log_rows(e: OrbcommLogEntry)
    ensures
        text::starts_with(
            row_text(e),
            if e.received_at is Some {
                clock_text(e.received_at->0 as nat)
            } else {
                "??:??:??"@
            },
        ),
        e.packet.packet_type is SatelliteTelemetry ==> {
            &&& !e.packet.crc_ok ==> text::ends_with(row_text(e), " [bad FCS]"@)
            &&& e.packet.crc_ok ==> text::ends_with(row_text(e), " UTC"@)
        },
        e.packet.packet_type matches PacketType::Unknown(tw) ==> text::ends_with(
            row_text(e),
            text::hex(tw as nat, 4),
        ),
        e.packet.packet_type is SatelliteTelemetry ==> row_color(e) == theme::rgb(0x32DC50),
        e.packet.packet_type is SubscriberMessage || e.packet.packet_type is Ack ==> row_color(e)
            == theme::rgb(0x788CAF),
        e.packet.packet_type is Unknown ==> row_color(e) == theme::rgb(0x41506E),
{
    let stamp = stamp_text(e.received_at);
    let s = row_text(e);
    assert(s.take(stamp.len() as int) =~= stamp);
    match e.packet.packet_type {
        PacketType::SatelliteTelemetry { sat_id, utc_seconds, channel } => {
            if e.packet.crc_ok {
                assert(s.skip(s.len() - " UTC"@.len()) =~= " UTC"@);
            } else {
                assert(s.skip(s.len() - " [bad FCS]"@.len()) =~= " [bad FCS]"@);
            }
        },
        PacketType::Unknown(tw) => {
            let h = text::hex(tw as nat, 4);
            assert(s.skip(s.len() - h.len()) =~= h);
        },
        _ => {},
    }
}

/// The demodulator gets from 48 kS/s to less than 96 kS/s, of any sample rate from 48 kS/s on.
pub proof fn law_demodulator_rate(rate: nat)
    requires
        rate >= 48_000,
    ensures
        ({
            let factor = adsb_decoder::thinning(rate, 48_000);
            &&& factor * 48_000 <= rate
            &&& rate < factor * 96_000
        }),
{
    lemma_thinned(rate, 48_000);
}

/// At a multiple of 48 kS/s the demodulator gets exactly ten samples a symbol.
pub proof fn law_ten_samples_a_symbol(k: nat)
    requires
        1 <= k <= 349,
    ensures
        symbol_length(48_000 * k).0 == 10 * pow2(symbol_length(48_000 * k).1),
{
    lemma2_to64();
    let rate = 48_000 * k;
    single::law_small_numbers_are_exact(rate as int);
    assert(rate / 48_000 == k);
    assert(adsb_decoder::thinning(rate, 48_000) == k);
    assert(pow2(0) == 1);
    assert(rate as int * 1 == rate && k as int * 1 == k);
    single::law_whole_quotient_is_exact(48_000, k);
    let q = single::quotient(rate, k);
    let s = q.1;
    lemma_pow2_pos(s);
    assert(single::over((rate as int, 0), (k as int, 0)) == q);
    let d = 4_800 * pow2(s);
    assert(q.0 == 10 * d);
    assert(q.0 * 1 == q.0);
    assert(single::widened(q, s) == q.0);
    assert(single::widened((4_800, 0), s) == d);
    single::law_whole_quotient_is_exact(10, d);
}

} // verus!
