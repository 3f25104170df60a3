//! The demodulator controls.

use vstd::prelude::*;
use vstd::string::*;

use crate::app;
use crate::app::SdrApp;
use crate::config::AppConfig;
use crate::config::UiConfig;
use crate::decimal;
use crate::level::Level;
use crate::receiver;
use crate::receiver::Command;
use crate::receiver::DemodMode;
use crate::receiver::DemodState;
use crate::receiver::RecordingMode;
use crate::receiver::SharedState;
use crate::receiver::Station;
use crate::text;

verus! {

/// The modes offered, with their captions.
pub open spec fn mode_offer(i: int) -> Option<(DemodMode, Seq<char>)> {
    if i == 0 {
        Some((DemodMode::Wbfm, "WBFM"@))
    } else if i == 1 {
        Some((DemodMode::Nfm, "NFM"@))
    } else if i == 2 {
        Some((DemodMode::Am, "AM"@))
    } else {
        None
    }
}

pub fn mode_choice(i: usize) -> (r: Option<(DemodMode, &'static str)>)
    ensures
        match r {
            Some(c) => mode_offer(i as int) == Some((c.0, c.1@)),
            None => mode_offer(i as int) is None,
        },
{
    match i {
        0 => Some((DemodMode::Wbfm, "WBFM")),
        1 => Some((DemodMode::Nfm, "NFM")),
        2 => Some((DemodMode::Am, "AM")),
        _ => None,
    }
}

/// The channel widths offered for narrow FM, with their captions.
pub open spec fn width_offer(i: int) -> Option<(u32, Seq<char>)> {
    if i == 0 {
        Some((12_500, "12.5k"@))
    } else if i == 1 {
        Some((25_000, "25k"@))
    } else {
        None
    }
}

pub fn width_choice(i: usize) -> (r: Option<(u32, &'static str)>)
    ensures
        match r {
            Some(c) => width_offer(i as int) == Some((c.0, c.1@)),
            None => width_offer(i as int) is None,
        },
{
    match i {
        0 => Some((12_500, "12.5k")),
        1 => Some((25_000, "25k")),
        _ => None,
    }
}

/// The caption of the tone squelch button.
pub open spec fn ctcss_text(enabled: bool, detected: bool) -> Seq<char> {
    if !enabled {
        "CTCSS off"@
    } else if detected {
        "CTCSS ✓"@
    } else {
        "CTCSS (no tone)"@
    }
}

/// The caption of the tone squelch button.
pub fn ctcss_label(enabled: bool, detected: bool) -> (r: &'static str)
    ensures
        r@ == ctcss_text(enabled, detected),
{
    if !enabled {
        "CTCSS off"
    } else if detected {
        "CTCSS ✓"
    } else {
        "CTCSS (no tone)"
    }
}

/// What a click on a mode does.
pub open spec fn after_mode(a: &SdrApp, current: DemodMode, mode: DemodMode, n: &SdrApp) -> bool {
    &&& *n == (SdrApp { outbox: n.outbox, ..*a })
    &&& n.queued(
        a,
        if current == mode {
            Seq::empty()
        } else {
            seq![Command::SetDemodMode(mode)]
        },
    )
}

/// What a click on a channel width does.
pub open spec fn after_width(a: &SdrApp, current: u32, width: u32, n: &SdrApp) -> bool {
    &&& current == width ==> *n == *a
    &&& current != width ==> {
        &&& *n == (SdrApp {
            config: AppConfig {
                ui: UiConfig { nfm_bandwidth_hz: width, ..a.config.ui },
                ..a.config
            },
            config_dirty: true,
            outbox: n.outbox,
            ..*a
        })
        &&& n.queued(a, seq![Command::SetNfmBandwidth(width)])
    }
}

/// What the squelch slider does.
pub open spec fn after_squelch(a: &SdrApp, threshold: Level, n: &SdrApp) -> bool {
    &&& *n == (SdrApp { outbox: n.outbox, ..*a })
    &&& n.queued(a, seq![Command::SetSquelchThreshold(threshold)])
}

/// What the tone squelch button does.
pub open spec fn after_tone_button(a: &SdrApp, enabled: bool, n: &SdrApp) -> bool {
    &&& *n == (SdrApp {
        config: AppConfig {
            ui: UiConfig { ctcss_enabled: !enabled, ..a.config.ui },
            ..a.config
        },
        config_dirty: true,
        outbox: n.outbox,
        ..*a
    })
    &&& n.queued(a, seq![Command::SetCtcssEnabled(!enabled)])
}

impl SdrApp {
    /// A click on a mode: the mode in use is not set again.
    pub fn select_mode(&mut self, current: DemodMode, mode: DemodMode)
        ensures
            after_mode(old(self), current, mode, final(self)),
    {
        if current != mode {
            self.send(Command::SetDemodMode(mode));
        }
    }

    /// A click on a channel width of narrow FM: the width in use is not set again.
    pub fn select_nfm_bandwidth(&mut self, current: u32, width: u32)
        ensures
            after_width(old(self), current, width, final(self)),
    {
        if current != width {
            self.send(Command::SetNfmBandwidth(width));
            self.config.ui.nfm_bandwidth_hz = width;
            self.config_dirty = true;
        }
    }

    /// The squelch slider was moved.
    pub fn set_squelch(&mut self, threshold: Level)
        ensures
            after_squelch(old(self), threshold, final(self)),
    {
        self.send(Command::SetSquelchThreshold(threshold));
    }

    /// The tone squelch button.
    pub fn toggle_ctcss(&mut self, enabled: bool)
        ensures
            after_tone_button(old(self), enabled, final(self)),
    {
        self.send(Command::SetCtcssEnabled(!enabled));
        self.config.ui.ctcss_enabled = !enabled;
        self.config_dirty = true;
    }
}

/// A click on a recording mode.
pub fn select_recording(shared: &mut SharedState, mode: RecordingMode)
    ensures
        *final(shared) == (SharedState { recording_mode: mode, ..*old(shared) }),
{
    shared.recording_mode = mode;
}

// ── Laws ────────────────────────────────────────────────────────────────────

/// After a click on a mode the receiver demodulates in it, and clicking the mode in use sends
/// nothing.
pub proof fn law_mode_takes_effect(
    a: SdrApp,
    current: DemodMode,
    mode: DemodMode,
    n: SdrApp,
    s: Station,
)
    requires
        after_mode(&a, current, mode, &n),
        s.demod.demod_mode == current,
    ensures
        app::received(s, &a, &n) == (Station {
            demod: DemodState { demod_mode: mode, ..s.demod },
            ..s
        }),
        current == mode ==> n.outbox@ == a.outbox@,
        n.config == a.config,
{
    reveal(receiver::obeyed);
    if current == mode {
        app::lemma_received_none(s, &a, &n);
    } else {
        app::lemma_received_one(s, &a, &n, Command::SetDemodMode(mode));
    }
}

/// After a click on a channel width the receiver uses it and, when it was another, so do the stored
/// settings.
pub proof fn law_width_takes_effect(
    a: SdrApp,
    current: u32,
    width: u32,
    n: SdrApp,
    s: Station,
)
    requires
        after_width(&a, current, width, &n),
        s.demod.nfm_bandwidth_hz == current,
    ensures
        app::received(s, &a, &n) == (Station {
            demod: DemodState { nfm_bandwidth_hz: width, ..s.demod },
            ..s
        }),
        current != width ==> n.config.ui.nfm_bandwidth_hz == width && n.config_dirty,
        current == width ==> n == a,
{
    reveal(receiver::obeyed);
    if current == width {
        app::lemma_received_none(s, &a, &n);
    } else {
        app::lemma_received_one(s, &a, &n, Command::SetNfmBandwidth(width));
    }
}

/// The squelch slider sets the threshold of the receiver; the tone squelch button switches the tone
/// squelch to what it was not, in the receiver and in the settings alike.
pub proof fn law_squelch_takes_effect(
    a: SdrApp,
    threshold: Level,
    b: SdrApp,
    on: bool,
    c: SdrApp,
    s: Station,
)
    requires
        after_squelch(&a, threshold, &b),
        after_tone_button(&a, on, &c),
    ensures
        app::received(s, &a, &b) == (Station {
            demod: DemodState { squelch_threshold: threshold, ..s.demod },
            ..s
        }),
        b.config == a.config,
        app::received(s, &a, &c) == (Station {
            demod: DemodState { ctcss_squelch_enabled: c.config.ui.ctcss_enabled, ..s.demod },
            ..s
        }),
        c.config.ui.ctcss_enabled != on,
        c.config_dirty,
{
    reveal(receiver::obeyed);
    app::lemma_received_one(s, &a, &b, Command::SetSquelchThreshold(threshold));
    app::lemma_received_one(s, &a, &c, Command::SetCtcssEnabled(!on));
}

/// The caption of a mode on offer is its stored name in capitals, each mode is offered once, and
/// FM comes before AM.
pub proof fn law_captions_name_the_modes(i: int)
    ensures
        mode_offer(i) is Some <==> 0 <= i < 3,
        mode_offer(i) is Some ==> text::ascii_lower((mode_offer(i)->0).1) == text::ascii_lower(
            (mode_offer(i)->0).0.stored_name(),
        ),
        (mode_offer(0)->0).0 == DemodMode::Wbfm,
        (mode_offer(1)->0).0 == DemodMode::Nfm,
        (mode_offer(2)->0).0 == DemodMode::Am,
{
    reveal_strlit("WBFM");
    reveal_strlit("Wbfm");
    reveal_strlit("NFM");
    reveal_strlit("Nfm");
    reveal_strlit("AM");
    reveal_strlit("Am");
    if mode_offer(i) is Some {
        assert(text::ascii_lower((mode_offer(i)->0).1) =~= text::ascii_lower(
            (mode_offer(i)->0).0.stored_name(),
        ));
    }
}

/// The channel widths on offer are 12.5 and 25 kHz, and the caption of each is its width in
/// kilohertz.
pub proof fn law_captions_give_the_widths(i: int)
    ensures
        width_offer(i) is Some <==> 0 <= i < 2,
        (width_offer(0)->0).0 == 12_500,
        (width_offer(1)->0).0 == 2 * (width_offer(0)->0).0,
        (width_offer(0)->0).1 == decimal::fixed_text(125, 1) + "k"@,
        (width_offer(1)->0).1 == text::dec(25) + "k"@,
{
    reveal_strlit("12.5k");
    reveal_strlit("25k");
    reveal_strlit("k");
    reveal_with_fuel(text::dec, 3);
    reveal_with_fuel(text::dec_fixed, 2);
    reveal_with_fuel(decimal::pow10, 2);
    assert(decimal::pow10(1) == 10);
    assert(text::dec(12) =~= seq!['1', '2']);
    assert(text::dec_fixed(5, 1) =~= seq!['5']);
    assert(decimal::fixed_text(125, 1) =~= seq!['1', '2', '.', '5']);
    assert(decimal::fixed_text(125, 1) + "k"@ =~= "12.5k"@);
    assert(text::dec(25) + "k"@ =~= "25k"@);
}

/// The tone squelch button tells apart three states: off, on with a tone, on without one.
pub proof fn law_tone_caption(detected: bool)
    ensures
        ctcss_text(false, detected) == "CTCSS off"@,
        ctcss_text(true, true) == "CTCSS ✓"@,
        ctcss_text(true, false) == "CTCSS (no tone)"@,
{
}

} // verus!
