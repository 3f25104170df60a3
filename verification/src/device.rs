//! Device settings: antenna, sample rate, gain, filters.

use vstd::prelude::*;
use vstd::string::*;

use crate::app;
use crate::app::SdrApp;
use crate::config::AppConfig;
use crate::config::SourceConfig;
use crate::receiver;
use crate::receiver::Command;
use crate::receiver::Station;
use crate::text;

verus! {

/// Highest frequency at which the high-dynamic-range mode works.
pub const HDR_MAX_HZ: u64 = 2_000_000;

/// Gain reduction of the "Max Atten" button.
pub const MAX_ATTEN_LNA: u8 = 9;

pub const MAX_ATTEN_SETPOINT: i32 = -60;

/// The antenna ports.
pub open spec fn is_port(s: Seq<char>) -> bool {
    s == "A"@ || s == "B"@ || s == "C"@
}

/// Highest amplifier state: 3 in high-dynamic-range mode, 9 otherwise.
pub open spec fn lna_limit(hdr_mode: bool) -> u8 {
    if hdr_mode {
        3
    } else {
        9
    }
}

pub fn lna_max(hdr_mode: bool) -> (r: u8)
    ensures
        r == lna_limit(hdr_mode),
{
    if hdr_mode {
        3
    } else {
        9
    }
}

pub const RATE_CHOICES: usize = 4;

/// Sample rates on offer, for the demonstration source and for hardware.
pub open spec fn rate_choice_spec(is_demo: bool, i: int) -> (u32, Seq<char>) {
    if is_demo {
        if i == 0 {
            (200_000, "200k"@)
        } else if i == 1 {
            (500_000, "500k"@)
        } else if i == 2 {
            (1_000_000, "1M"@)
        } else {
            (2_000_000, "2M"@)
        }
    } else {
        if i == 0 {
            (2_000_000, "2M"@)
        } else if i == 1 {
            (6_000_000, "6M"@)
        } else if i == 2 {
            (8_000_000, "8M"@)
        } else {
            (10_000_000, "10M"@)
        }
    }
}

pub fn rate_choice(is_demo: bool, i: usize) -> (r: (u32, &'static str))
    requires
        i < RATE_CHOICES,
    ensures
        (r.0, r.1@) == rate_choice_spec(is_demo, i as int),
{
    if is_demo {
        match i {
            0 => (200_000, "200k"),
            1 => (500_000, "500k"),
            2 => (1_000_000, "1M"),
            _ => (2_000_000, "2M"),
        }
    } else {
        match i {
            0 => (2_000_000, "2M"),
            1 => (6_000_000, "6M"),
            2 => (8_000_000, "8M"),
            _ => (10_000_000, "10M"),
        }
    }
}

/// The label of the current sample rate; `"?"` when it is not on offer.
pub open spec fn rate_label_text(is_demo: bool, rate: u32) -> Seq<char> {
    if rate == rate_choice_spec(is_demo, 0).0 {
        rate_choice_spec(is_demo, 0).1
    } else if rate == rate_choice_spec(is_demo, 1).0 {
        rate_choice_spec(is_demo, 1).1
    } else if rate == rate_choice_spec(is_demo, 2).0 {
        rate_choice_spec(is_demo, 2).1
    } else if rate == rate_choice_spec(is_demo, 3).0 {
        rate_choice_spec(is_demo, 3).1
    } else {
        "?"@
    }
}

pub fn rate_label(is_demo: bool, rate: u32) -> (r: &'static str)
    ensures
        r@ == rate_label_text(is_demo, rate),
{
    let mut i: usize = 0;
    while i < RATE_CHOICES
        invariant
            i <= RATE_CHOICES,
            forall|j: int| 0 <= j < i ==> (#[trigger] rate_choice_spec(is_demo, j)).0 != rate,
        decreases RATE_CHOICES - i,
    {
        let c: (u32, &'static str) = rate_choice(is_demo, i);
        if c.0 == rate {
            assert(rate_choice_spec(is_demo, i as int).0 == rate);
            return c.1;
        }
        i += 1;
    }
    assert(rate_choice_spec(is_demo, 0).0 != rate && rate_choice_spec(is_demo, 1).0 != rate);
    assert(rate_choice_spec(is_demo, 2).0 != rate && rate_choice_spec(is_demo, 3).0 != rate);
    "?"
}

pub const IF_MODE_CHOICES: usize = 5;

/// Intermediate-frequency modes: stored key and label.
pub open spec fn if_mode_spec(i: int) -> (Seq<char>, Seq<char>) {
    if i == 0 {
        ("ZeroIF"@, "Zero-IF"@)
    } else if i == 1 {
        ("LowIF200kHz"@, "Low 200k"@)
    } else if i == 2 {
        ("LowIF500kHz"@, "Low 500k"@)
    } else if i == 3 {
        ("LowIF1MHz"@, "Low 1M"@)
    } else {
        ("LowIF2MHz"@, "Low 2M"@)
    }
}

pub fn if_mode_choice(i: usize) -> (r: (&'static str, &'static str))
    requires
        i < IF_MODE_CHOICES,
    ensures
        (r.0@, r.1@) == if_mode_spec(i as int),
{
    match i {
        0 => ("ZeroIF", "Zero-IF"),
        1 => ("LowIF200kHz", "Low 200k"),
        2 => ("LowIF500kHz", "Low 500k"),
        3 => ("LowIF1MHz", "Low 1M"),
        _ => ("LowIF2MHz", "Low 2M"),
    }
}

/// The label of an intermediate-frequency mode.
pub fn if_mode_label(key: &str) -> (r: &'static str)
    ensures
        match if_mode_index(key@) {
            Some(i) => r@ == if_mode_spec(i).1,
            None => r@ == "?"@,
        },
{
    let mut i: usize = 0;
    while i < IF_MODE_CHOICES
        invariant
            i <= IF_MODE_CHOICES,
            forall|j: int| 0 <= j < i ==> (#[trigger] if_mode_spec(j)).0 != key@,
        decreases IF_MODE_CHOICES - i,
    {
        let c: (&'static str, &'static str) = if_mode_choice(i);
        if text::same_text(c.0, key) {
            proof {
                lemma_if_mode_index(key@, i as int);
            }
            return c.1;
        }
        i += 1;
    }
    assert(if_mode_spec(0).0 != key@ && if_mode_spec(1).0 != key@ && if_mode_spec(2).0 != key@);
    assert(if_mode_spec(3).0 != key@ && if_mode_spec(4).0 != key@);
    "?"
}

/// The first mode stored under `key`.
pub open spec fn if_mode_index(key: Seq<char>) -> Option<int> {
    if key == if_mode_spec(0).0 {
        Some(0int)
    } else if key == if_mode_spec(1).0 {
        Some(1int)
    } else if key == if_mode_spec(2).0 {
        Some(2int)
    } else if key == if_mode_spec(3).0 {
        Some(3int)
    } else if key == if_mode_spec(4).0 {
        Some(4int)
    } else {
        None
    }
}

proof fn lemma_if_mode_index(key: Seq<char>, i: int)
    requires
        0 <= i < IF_MODE_CHOICES,
        if_mode_spec(i).0 == key,
        forall|j: int| 0 <= j < i ==> (#[trigger] if_mode_spec(j)).0 != key,
    ensures
        if_mode_index(key) == Some(i),
{
    assert(i > 0 ==> if_mode_spec(0).0 != key);
    assert(i > 1 ==> if_mode_spec(1).0 != key);
    assert(i > 2 ==> if_mode_spec(2).0 != key);
    assert(i > 3 ==> if_mode_spec(3).0 != key);
}

/// High dynamic range can be switched at this frequency.
pub open spec fn hdr_available_spec(frequency_hz: u64) -> bool {
    frequency_hz <= HDR_MAX_HZ
}

/// High dynamic range can be switched at this frequency.
pub fn hdr_available(frequency_hz: u64) -> (r: bool)
    ensures
        r == hdr_available_spec(frequency_hz),
{
    frequency_hz <= HDR_MAX_HZ
}

/// The notch filter of the FM broadcast band cuts what is listened to.
pub open spec fn fm_notch_hurts_spec(enabled: bool, frequency_hz: u64) -> bool {
    enabled && 87_000_000 <= frequency_hz <= 108_000_000
}

pub fn fm_notch_hurts(enabled: bool, frequency_hz: u64) -> (r: bool)
    ensures
        r == fm_notch_hurts_spec(enabled, frequency_hz),
{
    enabled && frequency_hz >= 87_000_000 && frequency_hz <= 108_000_000
}

/// What choosing an antenna port does.
pub open spec fn after_antenna(a: &SdrApp, port: Seq<char>, is_running: bool, n: &SdrApp) -> bool {
    if is_running || a.config.source.antenna@ == port {
        *n == *a
    } else {
        &&& n.config.source.antenna@ == port
        &&& n.with_source(
            a,
            SourceConfig {
                antenna: n.config.source.antenna,
                ..a.config.source
            },
            seq![Command::SetAntenna(app::port_number(port))],
        )
    }
}

/// What choosing a sample rate does.
pub open spec fn after_rate(a: &SdrApp, rate: u32, is_running: bool, n: &SdrApp) -> bool {
    if is_running {
        *n == *a
    } else {
        n.with_source(
            a,
            SourceConfig { sample_rate_sps: rate, ..a.config.source },
            Seq::empty(),
        )
    }
}

/// What choosing an intermediate-frequency mode does.
pub open spec fn after_if_mode(a: &SdrApp, key: Seq<char>, is_running: bool, n: &SdrApp) -> bool {
    if is_running {
        *n == *a
    } else {
        &&& n.config.source.if_mode@ == key
        &&& n.with_source(
            a,
            SourceConfig {
                if_mode: n.config.source.if_mode,
                ..a.config.source
            },
            Seq::empty(),
        )
    }
}

/// What the gain control button does.
pub open spec fn after_agc(a: &SdrApp, n: &SdrApp) -> bool {
    n.with_source(
        a,
        SourceConfig {
            agc_enabled: !a.config.source.agc_enabled,
            ..a.config.source
        },
        seq![Command::SetAgcEnabled(!a.config.source.agc_enabled)],
    )
}

/// What limiting the amplifier state does.
pub open spec fn after_lna_limit(a: &SdrApp, n: &SdrApp) -> bool {
    &&& n.config.source.lna_state <= lna_limit(n.config.source.hdr_mode)
    &&& if a.config.source.lna_state > lna_limit(a.config.source.hdr_mode) {
        n.with_source(
            a,
            SourceConfig {
                lna_state: lna_limit(a.config.source.hdr_mode),
                ..a.config.source
            },
            Seq::empty(),
        )
    } else {
        *n == *a
    }
}

/// What setting the amplifier state does.
pub open spec fn after_lna(a: &SdrApp, lna: u8, n: &SdrApp) -> bool {
    n.with_source(
        a,
        SourceConfig { lna_state: lna, ..a.config.source },
        seq![Command::SetLnaState(lna)],
    )
}

/// What setting the intermediate-frequency gain does.
pub open spec fn after_if_gain(a: &SdrApp, gain: i32, n: &SdrApp) -> bool {
    n.with_source(
        a,
        SourceConfig { if_gain_dbfs: gain, ..a.config.source },
        seq![Command::SetIfGain(gain)],
    )
}

/// What setting the level of the gain control does.
pub open spec fn after_setpoint(a: &SdrApp, setpoint: i32, n: &SdrApp) -> bool {
    n.with_source(
        a,
        SourceConfig { agc_setpoint_dbfs: setpoint, ..a.config.source },
        seq![Command::SetAgcSetpoint(setpoint)],
    )
}

/// What one click against a saturated input does.
pub open spec fn after_max_attenuation(a: &SdrApp, n: &SdrApp) -> bool {
    n.with_source(
        a,
        SourceConfig {
            agc_setpoint_dbfs: MAX_ATTEN_SETPOINT,
            ..a.config.source
        },
        seq![
            Command::SetLnaState(MAX_ATTEN_LNA),
            Command::SetAgcSetpoint(MAX_ATTEN_SETPOINT),
        ],
    )
}

/// What the bias button does.
pub open spec fn after_bias_t(a: &SdrApp, n: &SdrApp) -> bool {
    n.with_source(
        a,
        SourceConfig {
            bias_t_enabled: !a.config.source.bias_t_enabled,
            ..a.config.source
        },
        seq![Command::SetBiasT(!a.config.source.bias_t_enabled)],
    )
}

/// What the high-dynamic-range button does.
pub open spec fn after_hdr(a: &SdrApp, n: &SdrApp) -> bool {
    if a.config.ui.frequency_hz > HDR_MAX_HZ {
        *n == *a
    } else {
        n.with_source(
            a,
            SourceConfig {
                hdr_mode: !a.config.source.hdr_mode,
                ..a.config.source
            },
            seq![Command::SetHdrMode(!a.config.source.hdr_mode)],
        )
    }
}

/// What the AM notch button does.
pub open spec fn after_am_notch(a: &SdrApp, n: &SdrApp) -> bool {
    n.with_source(
        a,
        SourceConfig {
            am_notch_enabled: !a.config.source.am_notch_enabled,
            ..a.config.source
        },
        seq![Command::SetAmNotch(!a.config.source.am_notch_enabled)],
    )
}

/// What switching the FM notch does.
pub open spec fn after_fm_notch(a: &SdrApp, on: bool, n: &SdrApp) -> bool {
    n.with_source(
        a,
        SourceConfig { fm_notch_enabled: on, ..a.config.source },
        seq![Command::SetFmNotch(on)],
    )
}

impl SdrApp {
    /// `self` is `before` with other device settings, marked for saving, and `sent` queued.
    pub open spec fn with_source(
        &self,
        before: &SdrApp,
        source: SourceConfig,
        sent: Seq<Command>,
    ) -> bool {
        &&& self.queued(before, sent)
        &&& *self == (SdrApp {
            config: AppConfig { source, ..before.config },
            config_dirty: true,
            outbox: self.outbox,
            ..*before
        })
    }

    /// An antenna port was chosen. Nothing happens while the receiver runs, or when the port is
    /// in use already.
    pub fn select_antenna(&mut self, port: &str, is_running: bool)
        requires
            is_port(port@),
        ensures
            after_antenna(old(self), port@, is_running, final(self)),
    {
        if is_running || text::same_text(self.config.source.antenna.as_str(), port) {
            return;
        }
        self.config.source.antenna = text::owned(port);
        self.config_dirty = true;
        self.send(Command::SetAntenna(app::antenna_port(port)));
    }

    /// A sample rate was chosen; it takes effect with the next start.
    pub fn select_sample_rate(&mut self, rate: u32, is_running: bool)
        ensures
            after_rate(old(self), rate, is_running, final(self)),
    {
        if !is_running {
            self.config.source.sample_rate_sps = rate;
            self.config_dirty = true;
        }
    }

    /// An intermediate-frequency mode was chosen; it takes effect with the next start.
    pub fn select_if_mode(&mut self, key: &str, is_running: bool)
        ensures
            after_if_mode(old(self), key@, is_running, final(self)),
    {
        if !is_running {
            self.config.source.if_mode = text::owned(key);
            self.config_dirty = true;
        }
    }

    pub fn toggle_agc(&mut self)
        ensures
            after_agc(old(self), final(self)),
    {
        let on: bool = !self.config.source.agc_enabled;
        self.config.source.agc_enabled = on;
        self.config_dirty = true;
        self.send(Command::SetAgcEnabled(on));
    }

    /// An amplifier state beyond the limit of the current mode is taken back to it.
    pub fn limit_lna(&mut self)
        ensures
            after_lna_limit(old(self), final(self)),
    {
        let max: u8 = lna_max(self.config.source.hdr_mode);
        if self.config.source.lna_state > max {
            self.config.source.lna_state = max;
            self.config_dirty = true;
        }
    }

    pub fn set_lna(&mut self, lna: u8)
        ensures
            after_lna(old(self), lna, final(self)),
    {
        self.config.source.lna_state = lna;
        self.config_dirty = true;
        self.send(Command::SetLnaState(lna));
    }

    pub fn set_if_gain(&mut self, gain: i32)
        ensures
            after_if_gain(old(self), gain, final(self)),
    {
        self.config.source.if_gain_dbfs = gain;
        self.config_dirty = true;
        self.send(Command::SetIfGain(gain));
    }

    pub fn set_agc_setpoint(&mut self, setpoint: i32)
        ensures
            after_setpoint(old(self), setpoint, final(self)),
    {
        self.config.source.agc_setpoint_dbfs = setpoint;
        self.config_dirty = true;
        self.send(Command::SetAgcSetpoint(setpoint));
    }

    /// One click against a saturated input: highest amplifier state, lowest setpoint. The stored
    /// amplifier state stays.
    pub fn max_attenuation(&mut self)
        ensures
            after_max_attenuation(old(self), final(self)),
    {
        self.config.source.agc_setpoint_dbfs = MAX_ATTEN_SETPOINT;
        self.config_dirty = true;
        self.send(Command::SetLnaState(MAX_ATTEN_LNA));
        self.send(Command::SetAgcSetpoint(MAX_ATTEN_SETPOINT));
    }

    pub fn toggle_bias_t(&mut self)
        ensures
            after_bias_t(old(self), final(self)),
    {
        let on: bool = !self.config.source.bias_t_enabled;
        self.config.source.bias_t_enabled = on;
        self.config_dirty = true;
        self.send(Command::SetBiasT(on));
    }

    /// Switches high dynamic range; above its highest frequency nothing happens.
    pub fn toggle_hdr(&mut self)
        ensures
            after_hdr(old(self), final(self)),
    {
        if hdr_available(self.config.ui.frequency_hz) {
            let on: bool = !self.config.source.hdr_mode;
            self.config.source.hdr_mode = on;
            self.config_dirty = true;
            self.send(Command::SetHdrMode(on));
        }
    }

    pub fn toggle_am_notch(&mut self)
        ensures
            after_am_notch(old(self), final(self)),
    {
        let on: bool = !self.config.source.am_notch_enabled;
        self.config.source.am_notch_enabled = on;
        self.config_dirty = true;
        self.send(Command::SetAmNotch(on));
    }

    pub fn set_fm_notch(&mut self, on: bool)
        ensures
            after_fm_notch(old(self), on, final(self)),
    {
        self.config.source.fm_notch_enabled = on;
        self.config_dirty = true;
        self.send(Command::SetFmNotch(on));
    }
}

/// After high dynamic range is switched on and the amplifier state limited, the state is at most 3.
pub proof fn law_hdr_limits_lna(before: SdrApp, limited: SdrApp)
    requires
        before.config.source.hdr_mode,
        if before.config.source.lna_state > lna_limit(before.config.source.hdr_mode) {
            limited.with_source(
                &before,
                SourceConfig {
                    lna_state: lna_limit(before.config.source.hdr_mode),
                    ..before.config.source
                },
                Seq::empty(),
            )
        } else {
            limited == before
        },
    ensures
        limited.config.source.lna_state <= 3,
        limited.config.source.lna_state <= before.config.source.lna_state,
{
}

// ── Laws ────────────────────────────────────────────────────────────────────

/// Choosing a port connects the receiver to it and stores it, while the receiver is stopped; while
/// it runs nothing happens. The ports A, B and C have the numbers 0, 1 and 2.
pub proof fn law_antenna_takes_effect(
    a: SdrApp,
    port: Seq<char>,
    is_running: bool,
    n: SdrApp,
    s: Station,
)
    requires
        is_port(port),
        after_antenna(&a, port, is_running, &n),
        s.antenna == app::port_number(a.config.source.antenna@),
    ensures
        is_running ==> n == a && app::received(s, &a, &n) == s,
        !is_running ==> n.config.source.antenna@ == port && app::received(s, &a, &n) == (Station {
            antenna: app::port_number(port),
            ..s
        }),
        n.config.source == (SourceConfig {
            antenna: n.config.source.antenna,
            ..a.config.source
        }),
        is_port("A"@) && is_port("B"@) && is_port("C"@),
        !is_port("D"@),
{
    reveal(receiver::obeyed);
    reveal_strlit("A");
    reveal_strlit("B");
    reveal_strlit("C");
    reveal_strlit("D");
    assert("A"@[0] == 'A' && "B"@[0] == 'B' && "C"@[0] == 'C' && "D"@[0] == 'D');
    if is_running || a.config.source.antenna@ == port {
        app::lemma_received_none(s, &a, &n);
    } else {
        app::lemma_received_one(s, &a, &n, Command::SetAntenna(app::port_number(port)));
    }
}

/// A sample rate or an intermediate-frequency mode is stored for the next start, but not while the
/// receiver runs; neither sends anything.
pub proof fn law_stored_for_the_next_start(
    a: SdrApp,
    rate: u32,
    key: Seq<char>,
    is_running: bool,
    b: SdrApp,
    c: SdrApp,
)
    requires
        after_rate(&a, rate, is_running, &b),
        after_if_mode(&a, key, is_running, &c),
    ensures
        b.outbox@ == a.outbox@,
        c.outbox@ == a.outbox@,
        is_running ==> b == a && c == a,
        !is_running ==> b.config.source.sample_rate_sps == rate && b.config_dirty,
        !is_running ==> c.config.source.if_mode@ == key && c.config_dirty,
        b.config.source.if_mode == a.config.source.if_mode,
        c.config.source.sample_rate_sps == a.config.source.sample_rate_sps,
        b.config.source.antenna == a.config.source.antenna,
        c.config.source.antenna == a.config.source.antenna,
{
}

/// The switches of the device: each press changes the setting to what it was not and the receiver
/// with it, leaves every other setting alone, and a second press undoes the first.
pub proof fn law_switches_toggle(a: SdrApp, b: SdrApp, c: SdrApp, s: Station)
    ensures
        after_agc(&a, &b) && after_agc(&b, &c) ==> {
            &&& b.config.source.agc_enabled != a.config.source.agc_enabled
            &&& app::received(s, &a, &b) == (Station { agc: b.config.source.agc_enabled, ..s })
            &&& c.config.source == a.config.source
        },
        after_bias_t(&a, &b) && after_bias_t(&b, &c) ==> {
            &&& b.config.source.bias_t_enabled != a.config.source.bias_t_enabled
            &&& app::received(s, &a, &b) == (Station {
                bias_t: b.config.source.bias_t_enabled,
                ..s
            })
            &&& c.config.source == a.config.source
        },
        after_am_notch(&a, &b) && after_am_notch(&b, &c) ==> {
            &&& b.config.source.am_notch_enabled != a.config.source.am_notch_enabled
            &&& app::received(s, &a, &b) == (Station {
                am_notch: b.config.source.am_notch_enabled,
                ..s
            })
            &&& c.config.source == a.config.source
        },
{
    reveal(receiver::obeyed);
    if after_agc(&a, &b) {
        app::lemma_received_one(
            s,
            &a,
            &b,
            Command::SetAgcEnabled(!a.config.source.agc_enabled),
        );
    }
    if after_bias_t(&a, &b) {
        app::lemma_received_one(s, &a, &b, Command::SetBiasT(!a.config.source.bias_t_enabled));
    }
    if after_am_notch(&a, &b) {
        app::lemma_received_one(
            s,
            &a,
            &b,
            Command::SetAmNotch(!a.config.source.am_notch_enabled),
        );
    }
}

/// High dynamic range can be switched up to 2 MHz, and is then what it was not in the receiver and
/// in the settings; above 2 MHz the button does nothing.
pub proof fn law_hdr_below_two_megahertz(a: SdrApp, n: SdrApp, s: Station, hz: u64)
    requires
        after_hdr(&a, &n),
    ensures
        hdr_available_spec(hz) == (hz <= 2_000_000),
        a.config.ui.frequency_hz > 2_000_000 ==> n == a,
        a.config.ui.frequency_hz <= 2_000_000 ==> {
            &&& n.config.source == (SourceConfig {
                hdr_mode: !a.config.source.hdr_mode,
                ..a.config.source
            })
            &&& app::received(s, &a, &n) == (Station { hdr: n.config.source.hdr_mode, ..s })
        },
{
    reveal(receiver::obeyed);
    if a.config.ui.frequency_hz <= 2_000_000 {
        app::lemma_received_one(s, &a, &n, Command::SetHdrMode(!a.config.source.hdr_mode));
    }
}

/// Gains and notches are set in the receiver and in the settings to the value chosen.
pub proof fn law_gains_take_effect(
    a: SdrApp,
    lna: u8,
    gain: i32,
    setpoint: i32,
    notch: bool,
    b: SdrApp,
    c: SdrApp,
    d: SdrApp,
    e: SdrApp,
    s: Station,
)
    requires
        after_lna(&a, lna, &b),
        after_if_gain(&a, gain, &c),
        after_setpoint(&a, setpoint, &d),
        after_fm_notch(&a, notch, &e),
    ensures
        b.config.source == (SourceConfig { lna_state: lna, ..a.config.source }),
        app::received(s, &a, &b) == (Station { lna, ..s }),
        c.config.source == (SourceConfig { if_gain_dbfs: gain, ..a.config.source }),
        app::received(s, &a, &c) == (Station { if_gain: gain, ..s }),
        d.config.source == (SourceConfig { agc_setpoint_dbfs: setpoint, ..a.config.source }),
        app::received(s, &a, &d) == (Station { agc_setpoint: setpoint, ..s }),
        e.config.source == (SourceConfig { fm_notch_enabled: notch, ..a.config.source }),
        app::received(s, &a, &e) == (Station { fm_notch: notch, ..s }),
        b.config_dirty && c.config_dirty && d.config_dirty && e.config_dirty,
{
    reveal(receiver::obeyed);
    app::lemma_received_one(s, &a, &b, Command::SetLnaState(lna));
    app::lemma_received_one(s, &a, &c, Command::SetIfGain(gain));
    app::lemma_received_one(s, &a, &d, Command::SetAgcSetpoint(setpoint));
    app::lemma_received_one(s, &a, &e, Command::SetFmNotch(notch));
}

/// One click against a saturated input sets the receiver to amplifier state 9 and a level of -60,
/// which no setting of the controls goes beyond; of the two only the level is stored.
pub proof fn law_max_attenuation(a: SdrApp, n: SdrApp, s: Station)
    requires
        after_max_attenuation(&a, &n),
    ensures
        app::received(s, &a, &n) == (Station { lna: 9, agc_setpoint: (-60) as i32, ..s }),
        n.config.source == (SourceConfig { agc_setpoint_dbfs: (-60) as i32, ..a.config.source }),
        lna_limit(false) == 9,
{
    reveal(receiver::obeyed);
    app::lemma_received_two(
        s,
        &a,
        &n,
        Command::SetLnaState(MAX_ATTEN_LNA),
        Command::SetAgcSetpoint(MAX_ATTEN_SETPOINT),
    );
}

/// The amplifier state is never left above 3 in high-dynamic-range mode nor above 9 otherwise, and
/// a state within the limit is kept.
pub proof fn law_lna_stays_within_its_limit(a: SdrApp, n: SdrApp)
    requires
        after_lna_limit(&a, &n),
    ensures
        a.config.source.hdr_mode ==> n.config.source.lna_state == (if a.config.source.lna_state > 3 {
            3
        } else {
            a.config.source.lna_state
        }),
        !a.config.source.hdr_mode ==> n.config.source.lna_state == (if a.config.source.lna_state
            > 9 {
            9
        } else {
            a.config.source.lna_state
        }),
        n.config.source == (SourceConfig {
            lna_state: n.config.source.lna_state,
            ..a.config.source
        }),
        n.outbox@ == a.outbox@,
{
}

/// The FM notch hurts when it is on and the frequency lies in the broadcast band, from 87 to
/// 108 MHz, both ends in it.
pub proof fn law_notch_cuts_the_broadcast_band(hz: u64)
    ensures
        !fm_notch_hurts_spec(false, hz),
        fm_notch_hurts_spec(true, hz) <==> 87_000_000 <= hz && hz <= 108_000_000,
{
}

/// Each sample rate on offer has its own number as label, in megasamples with an `M` or below one
/// in kilosamples with a `k`. The rates ascend, on hardware from 2 to 10 MS/s and in the
/// demonstration from 200 kS/s to 2 MS/s, and a stored rate is shown under its label.
pub proof fn law_rates_on_offer(is_demo: bool, i: int)
    requires
        0 <= i < 4,
    ensures
        ({
            let (rate, label) = rate_choice_spec(is_demo, i);
            &&& rate >= 1_000_000 ==> rate % 1_000_000 == 0 && label == text::dec(
                (rate / 1_000_000) as nat,
            ) + "M"@
            &&& rate < 1_000_000 ==> rate % 1_000 == 0 && label == text::dec(
                (rate / 1_000) as nat,
            ) + "k"@
            &&& i > 0 ==> rate_choice_spec(is_demo, i - 1).0 < rate
            &&& rate_label_text(is_demo, rate) == label
        }),
        rate_choice_spec(false, 0).0 == 2_000_000,
        rate_choice_spec(false, 1).0 == 6_000_000,
        rate_choice_spec(false, 2).0 == 8_000_000,
        rate_choice_spec(false, 3).0 == 10_000_000,
        rate_choice_spec(true, 0).0 == 200_000,
        rate_choice_spec(true, 1).0 == 500_000,
        rate_choice_spec(true, 2).0 == 1_000_000,
        rate_choice_spec(true, 3).0 == 2_000_000,
{
    reveal_with_fuel(text::dec, 4);
    reveal_strlit("M");
    reveal_strlit("k");
    reveal_strlit("200k");
    reveal_strlit("500k");
    reveal_strlit("1M");
    reveal_strlit("2M");
    reveal_strlit("6M");
    reveal_strlit("8M");
    reveal_strlit("10M");
    assert("200k"@ =~= text::dec(200) + "k"@);
    assert("500k"@ =~= text::dec(500) + "k"@);
    assert("1M"@ =~= text::dec(1) + "M"@);
    assert("2M"@ =~= text::dec(2) + "M"@);
    assert("6M"@ =~= text::dec(6) + "M"@);
    assert("8M"@ =~= text::dec(8) + "M"@);
    assert("10M"@ =~= text::dec(10) + "M"@);
}

/// Each intermediate-frequency mode on offer is found again by its key, and no two share one.
pub proof fn law_if_mode_found_by_key(i: int, j: int)
    requires
        0 <= i < 5,
        0 <= j < 5,
    ensures
        if_mode_index(if_mode_spec(i).0) == Some(i),
        i != j ==> if_mode_spec(i).0 != if_mode_spec(j).0,
{
    reveal_strlit("ZeroIF");
    reveal_strlit("LowIF200kHz");
    reveal_strlit("LowIF500kHz");
    reveal_strlit("LowIF1MHz");
    reveal_strlit("LowIF2MHz");
    assert("ZeroIF"@.len() == 6 && "LowIF200kHz"@.len() == 11 && "LowIF500kHz"@.len() == 11
        && "LowIF1MHz"@.len() == 9 && "LowIF2MHz"@.len() == 9);
    assert("LowIF200kHz"@[5] == '2' && "LowIF500kHz"@[5] == '5');
    assert("LowIF1MHz"@[5] == '1' && "LowIF2MHz"@[5] == '2');
}

} // verus!
