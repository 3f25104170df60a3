//! The left panel: source, frequency, tuning steps, scanners and rig control.

use vstd::prelude::*;
use vstd::string::*;

use crate::app;
use crate::app::BookmarkPanel;
use crate::app::SdrApp;
use crate::config::AppConfig;
use crate::config::RigctlConfig;
use crate::config::UiConfig;
use crate::decimal;
use crate::frequency;
use crate::frequency::DisplayFrame;
use crate::frequency::DisplayInput;
use crate::frequency::EditInput;
use crate::level::Level;
use crate::receiver;
use crate::receiver::Bookmark;
use crate::receiver::Command;
use crate::receiver::DemodMode;
use crate::receiver::DemodState;
use crate::receiver::RangeScan;
use crate::receiver::SharedState;
use crate::receiver::Station;
use crate::text;
use crate::tuning;

verus! {

/// The step sizes on offer, in hertz.
pub open spec fn step_choice_spec(i: int) -> u64 {
    if i == 0 {
        100
    } else if i == 1 {
        1_000
    } else if i == 2 {
        10_000
    } else if i == 3 {
        100_000
    } else if i == 4 {
        1_000_000
    } else {
        10_000_000
    }
}

pub const STEP_CHOICES: usize = 6;

/// A step size on offer and its label.
pub fn step_choice(i: usize) -> (r: (u64, &'static str))
    requires
        i < STEP_CHOICES,
    ensures
        r.0 == step_choice_spec(i as int),
        r.1@ == frequency::step_text(r.0),
{
    let hz: u64 = match i {
        0 => 100,
        1 => 1_000,
        2 => 10_000,
        3 => 100_000,
        4 => 1_000_000,
        _ => 10_000_000,
    };
    (hz, frequency::step_label(hz))
}

/// The source shown: its own name, else the first one registered, else none.
pub open spec fn source_label_text(name: Option<String>, first: Option<String>) -> Seq<char> {
    match name {
        Some(n) => n@,
        None => match first {
            Some(f) => f@,
            None => "No device"@,
        },
    }
}

pub fn source_label(name: &Option<String>, first: &Option<String>) -> (r: String)
    ensures
        r@ == source_label_text(*name, *first),
{
    match name {
        Some(n) => n.clone(),
        None => match first {
            Some(f) => f.clone(),
            None => text::owned("No device"),
        },
    }
}

/// A bookmark belongs to the scanned category; the empty category holds all.
pub open spec fn in_category(b: Bookmark, cat: Seq<char>) -> bool {
    cat.len() == 0 || b.category@ == cat
}

/// How many bookmarks are scanned.
pub open spec fn scan_count_spec(bookmarks: Seq<Bookmark>, cat: Seq<char>) -> nat
    decreases bookmarks.len(),
{
    if bookmarks.len() == 0 {
        0
    } else {
        scan_count_spec(bookmarks.drop_last(), cat) + if in_category(bookmarks.last(), cat) {
            1nat
        } else {
            0
        }
    }
}

/// Counts the bookmarks of a category.
pub fn scan_count(bookmarks: &Vec<Bookmark>, cat: &str) -> (r: usize)
    ensures
        r == scan_count_spec(bookmarks@, cat@),
        r <= bookmarks@.len(),
{
    let mut n: usize = 0;
    let mut i: usize = 0;
    while i < bookmarks.len()
        invariant
            i <= bookmarks.len(),
            n <= i,
            n == scan_count_spec(bookmarks@.take(i as int), cat@),
        decreases bookmarks.len() - i,
    {
        assert(bookmarks@.take(i + 1).drop_last() =~= bookmarks@.take(i as int));
        if cat.is_empty() || text::same_text(bookmarks[i].category.as_str(), cat) {
            n += 1;
        }
        i += 1;
    }
    assert(bookmarks@.take(bookmarks@.len() as int) =~= bookmarks@);
    n
}

/// The hint at the scan button.
pub open spec fn scan_tip_text(is_running: bool, count: nat) -> Seq<char> {
    if !is_running {
        "Start the radio first"@
    } else if count == 0 {
        "No bookmarks to scan — add some first"@
    } else {
        "Scan "@ + text::dec(count) + " bookmark(s)"@
    }
}

pub fn scan_tip(is_running: bool, count: usize) -> (r: String)
    ensures
        r@ == scan_tip_text(is_running, count as nat),
{
    if !is_running {
        text::owned("Start the radio first")
    } else if count == 0 {
        text::owned("No bookmarks to scan — add some first")
    } else {
        let mut s: String = text::owned("Scan ");
        text::push_dec(&mut s, count as u64);
        s.append(" bookmark(s)");
        s
    }
}

/// The hint at the range scan button.
pub open spec fn range_tip_text(is_running: bool, lo: nat, hi: nat, step: nat) -> Seq<char> {
    if is_running {
        "Sweep "@ + decimal::quotient_text(lo, 1_000_000, 1) + "–"@ + decimal::quotient_text(
            hi,
            1_000_000,
            1,
        ) + " MHz in "@ + decimal::quotient_text(step, 1_000, 0) + " kHz steps"@
    } else {
        "Start the radio first"@
    }
}

pub fn range_tip(is_running: bool, lo: u64, hi: u64, step: u64) -> (r: String)
    ensures
        r@ == range_tip_text(is_running, lo as nat, hi as nat, step as nat),
{
    if is_running {
        let mut s: String = text::owned("Sweep ");
        decimal::push_quotient(&mut s, lo, 1_000_000, 1);
        s.append("–");
        decimal::push_quotient(&mut s, hi, 1_000_000, 1);
        s.append(" MHz in ");
        decimal::push_quotient(&mut s, step, 1_000, 0);
        s.append(" kHz steps");
        s
    } else {
        text::owned("Start the radio first")
    }
}

/// A bookmark with its frequency in megahertz.
pub open spec fn bookmark_label_text(name: Seq<char>, freq_hz: nat) -> Seq<char> {
    name + " — "@ + decimal::quotient_text(freq_hz, 1_000_000, 3) + " MHz"@
}

pub fn bookmark_label(name: &str, freq_hz: u64) -> (r: String)
    ensures
        r@ == bookmark_label_text(name@, freq_hz as nat),
{
    let mut s: String = text::owned(name);
    s.append(" — ");
    decimal::push_quotient(&mut s, freq_hz, 1_000_000, 3);
    s.append(" MHz");
    s
}

/// The frequency that a nudge button reaches.
pub open spec fn nudge_target(hz: u64, step: u64, factor: int) -> u64 {
    tuning::moved(hz, tuning::as_signed(step) * factor)
}

/// What the start and stop button does.
pub open spec fn after_running(a: &SdrApp, is_running: bool, n: &SdrApp) -> bool {
    &&& n.queued(
        a,
        if is_running {
            seq![Command::Stop]
        } else {
            seq![
                Command::Start,
                Command::SetDemodMode(
                    receiver::stored_mode(a.config.ui.demod_mode@),
                ),
            ]
        },
    )
    &&& *n == (SdrApp { outbox: n.outbox, ..*a })
}

/// What choosing a step size does.
pub open spec fn after_tune_step(a: &SdrApp, hz: u64, n: &SdrApp) -> bool {
    &&& n.queued(a, seq![Command::SetTuneStep(hz)])
    &&& *n == (SdrApp {
        config: AppConfig {
            ui: UiConfig { tune_step_hz: hz, ..a.config.ui },
            ..a.config
        },
        config_dirty: true,
        outbox: n.outbox,
        ..*a
    })
}

/// What the range scan button does.
pub open spec fn after_range_scan(
    a: &SdrApp,
    range_running: bool,
    is_running: bool,
    n: &SdrApp,
) -> bool {
    &&& n.queued(
        a,
        if range_running {
            seq![Command::ScanStop]
        } else if is_running {
            seq![
                Command::ScanStartRange(
                    RangeScan {
                        freq_lo: a.scan.range_lo_hz,
                        freq_hi: a.scan.range_hi_hz,
                        step_hz: a.scan.range_step_hz,
                        dwell_secs: a.scan.range_dwell,
                        squelch_dbfs: a.scan.range_squelch,
                        mode: DemodMode::Wbfm,
                        stereo_only: a.scan.range_stereo_only,
                    },
                ),
            ]
        } else {
            Seq::empty()
        },
    )
    &&& *n == (SdrApp { outbox: n.outbox, ..*a })
}

/// What the bookmark scan button does.
pub open spec fn after_bookmark_scan(a: &SdrApp, shared: &SharedState, n: &SdrApp) -> bool {
    &&& ({
        let count = scan_count_spec(shared.bookmarks@, a.scan.category@);
        n.queued(
            a,
            if shared.scanner.scan_running {
                seq![Command::ScanStop]
            } else if shared.is_running && count > 0 {
                seq![
                    Command::ScanSetDwell(a.scan.dwell),
                    Command::ScanStart(a.scan.category),
                ]
            } else {
                Seq::empty()
            },
        )
    })
    &&& *n == (SdrApp { outbox: n.outbox, ..*a })
}

/// What moving the scan on does.
pub open spec fn after_scan_next(a: &SdrApp, n: &SdrApp) -> bool {
    &&& n.outbox@ == a.outbox@.push(Command::ScanNext)
    &&& *n == (SdrApp { outbox: n.outbox, ..*a })
}

/// What changing the dwell time does.
pub open spec fn after_dwell(a: &SdrApp, dwell: Level, n: &SdrApp) -> bool {
    &&& n.outbox@ == a.outbox@.push(Command::ScanSetDwell(dwell))
    &&& *n == (SdrApp {
        outbox: n.outbox,
        scan: app::ScanPanel { dwell, ..a.scan },
        ..*a
    })
}

/// What switching the rig control server does.
pub open spec fn after_rigctl(a: &SdrApp, n: &SdrApp) -> bool {
    *n == (SdrApp {
        config: AppConfig {
            rigctl: RigctlConfig {
                enabled: !a.config.rigctl.enabled,
                ..a.config.rigctl
            },
            ..a.config
        },
        config_dirty: true,
        ..*a
    })
}

/// What changing the port of the rig control server does.
pub open spec fn after_rigctl_port(a: &SdrApp, port: u16, n: &SdrApp) -> bool {
    *n == (SdrApp {
        config: AppConfig {
            rigctl: RigctlConfig { port, ..a.config.rigctl },
            ..a.config
        },
        config_dirty: true,
        ..*a
    })
}

/// What a nudge button does.
pub open spec fn after_nudge(a: &SdrApp, step_hz: u64, factor: i64, n: &SdrApp) -> bool {
    &&& app::after_apply_tune(
        a,
        nudge_target(a.config.ui.frequency_hz, step_hz, factor as int),
        n,
    )
    &&& n.config.ui.frequency_hz >= 1
}

/// What a frame of the tuner widget does beyond the widget: a changed frequency is sent and stored.
pub open spec fn after_widget_frame(a: &SdrApp, r: DisplayFrame, n: &SdrApp) -> bool {
    match r.new_freq {
        Some(hz) => {
            &&& n.queued(a, app::tune_commands(a, hz))
            &&& *n == (SdrApp {
                config: AppConfig {
                    ui: UiConfig { frequency_hz: hz, ..a.config.ui },
                    source: app::source_after_tune(a),
                    ..a.config
                },
                config_dirty: true,
                outbox: n.outbox,
                frequency_widget: n.frequency_widget,
                bookmarks: BookmarkPanel { prev_antenna: None, ..a.bookmarks },
                ..*a
            })
        },
        None => *n == (SdrApp {
            frequency_widget: n.frequency_widget,
            ..*a
        }),
    }
}

impl SdrApp {
    /// The Start / Stop button. A start also restores the stored demodulator.
    pub fn toggle_running(&mut self, is_running: bool)
        ensures
            after_running(old(self), is_running, final(self)),
    {
        if is_running {
            self.send(Command::Stop);
        } else {
            self.send(Command::Start);
            let saved: DemodMode = receiver::parse_config_demod_mode(
                self.config.ui.demod_mode.as_str(),
            );
            self.send(Command::SetDemodMode(saved));
        }
    }

    /// One frame of the tuner widget; a changed frequency is sent and stored, and the antenna that a
    /// bookmark chose is given up.
    pub fn show_frequency(&mut self, display: DisplayInput, edit: EditInput) -> (r: DisplayFrame)
        requires
            old(self).frequency_widget.wf(),
            !old(self).frequency_widget.editing ==> old(self).frequency_widget.can_take(display),
            display.hovered_digit is Some ==> display.hovered_digit->0 < frequency::DIGITS,
        ensures
            final(self).frequency_widget.wf(),
            old(self).frequency_widget.editing ==> frequency::after_edit(
                old(self).frequency_widget,
                edit,
                final(self).frequency_widget,
                r.new_freq,
            ) && !r.repaint,
            !old(self).frequency_widget.editing ==> frequency::after_display(
                old(self).frequency_widget,
                display,
                final(self).frequency_widget,
                r,
            ),
            after_widget_frame(old(self), r, final(self)),
    {
        let frame: DisplayFrame = self.frequency_widget.show(display, edit);
        if let Some(hz) = frame.new_freq {
            self.restore_bookmark_antenna();
            self.send(Command::SetFrequency(hz));
            self.config.ui.frequency_hz = hz;
            self.config_dirty = true;
        }
        frame
    }

    /// A step size was chosen.
    pub fn set_tune_step(&mut self, hz: u64)
        ensures
            after_tune_step(old(self), hz, final(self)),
    {
        self.send(Command::SetTuneStep(hz));
        self.config.ui.tune_step_hz = hz;
        self.config_dirty = true;
    }

    /// A nudge button moves by `factor` steps; 1 Hz is the lowest frequency.
    pub fn nudge_button(&mut self, step_hz: u64, factor: i64)
        requires
            factor == -10 || factor == -1 || factor == 1 || factor == 10,
            i64::MIN < tuning::as_signed(step_hz) * 10 <= i64::MAX,
            tuning::can_move(
                old(self).config.ui.frequency_hz,
                tuning::as_signed(step_hz) * factor,
            ),
        ensures
            after_nudge(old(self), step_hz, factor, final(self)),
    {
        let step: i64 = tuning::to_signed(step_hz);
        assert(step * factor == tuning::as_signed(step_hz) * factor);
        assert(factor == -10 ==> step * factor == -10 * step) by (nonlinear_arith);
        assert(factor == 10 ==> step * factor == 10 * step) by (nonlinear_arith);
        assert(factor == -1 ==> step * factor == -step) by (nonlinear_arith);
        assert(factor == 1 ==> step * factor == step) by (nonlinear_arith);
        let hz: u64 = tuning::move_by(self.config.ui.frequency_hz, step * factor);
        self.apply_tune(hz);
    }

    /// The range scan button: stops a running sweep, or starts one while the receiver runs.
    pub fn range_scan_button(&mut self, range_running: bool, is_running: bool)
        ensures
            after_range_scan(old(self), range_running, is_running, final(self)),
    {
        if range_running {
            self.send(Command::ScanStop);
        } else if is_running {
            self.send(
                Command::ScanStartRange(
                    RangeScan {
                        freq_lo: self.scan.range_lo_hz,
                        freq_hi: self.scan.range_hi_hz,
                        step_hz: self.scan.range_step_hz,
                        dwell_secs: self.scan.range_dwell,
                        squelch_dbfs: self.scan.range_squelch,
                        mode: DemodMode::Wbfm,
                        stereo_only: self.scan.range_stereo_only,
                    },
                ),
            );
        }
    }

    /// The bookmark scan button: stops a running scan, or starts one while the receiver runs and
    /// there is something to scan.
    pub fn bookmark_scan_button(&mut self, shared: &SharedState)
        ensures
            after_bookmark_scan(old(self), shared, final(self)),
    {
        if shared.scanner.scan_running {
            self.send(Command::ScanStop);
            return;
        }
        let count: usize = scan_count(&shared.bookmarks, self.scan.category.as_str());
        if shared.is_running && count > 0 {
            self.send(Command::ScanSetDwell(self.scan.dwell));
            let category: String = self.scan.category.clone();
            self.send(Command::ScanStart(category));
        }
    }

    /// The scan moves on to the next bookmark.
    pub fn scan_next(&mut self)
        ensures
            after_scan_next(old(self), final(self)),
    {
        self.send(Command::ScanNext);
    }

    /// The dwell time of the bookmark scan was changed.
    pub fn set_scan_dwell(&mut self, dwell: Level)
        ensures
            after_dwell(old(self), dwell, final(self)),
    {
        self.scan.dwell = dwell;
        self.send(Command::ScanSetDwell(dwell));
    }

    /// The rig control server is switched on or off.
    pub fn toggle_rigctl(&mut self)
        ensures
            after_rigctl(old(self), final(self)),
    {
        self.config.rigctl.enabled = !self.config.rigctl.enabled;
        self.config_dirty = true;
    }

    /// The port of the rig control server was changed.
    pub fn set_rigctl_port(&mut self, port: u16)
        ensures
            after_rigctl_port(old(self), port, final(self)),
    {
        self.config.rigctl.port = port;
        self.config_dirty = true;
    }
}

/// What the bookmark scanner shows below its buttons, if anything.
pub open spec fn scan_status_text(shared: SharedState, count: nat) -> Option<Seq<char>> {
    let at = shared.scanner.scan_cursor as int;
    if shared.scanner.scan_running {
        if at < shared.bookmarks@.len() {
            Some(
                bookmark_label_text(
                    shared.bookmarks@[at].name@,
                    shared.bookmarks@[at].freq_hz as nat,
                ),
            )
        } else {
            None
        }
    } else if !shared.is_running {
        Some("Start the radio to enable scanning"@)
    } else if count == 0 {
        Some("Add bookmarks to enable scanning"@)
    } else {
        None
    }
}

/// What the bookmark scanner shows below its buttons.
pub fn scan_status(shared: &SharedState, count: usize) -> (r: Option<String>)
    ensures
        match r {
            Some(s) => scan_status_text(*shared, count as nat) == Some(s@),
            None => scan_status_text(*shared, count as nat) is None,
        },
{
    if shared.scanner.scan_running {
        if shared.scanner.scan_cursor < shared.bookmarks.len() {
            let b: &Bookmark = &shared.bookmarks[shared.scanner.scan_cursor];
            return Some(bookmark_label(b.name.as_str(), b.freq_hz));
        }
        return None;
    }
    if !shared.is_running {
        return Some(text::owned("Start the radio to enable scanning"));
    }
    if count == 0 {
        return Some(text::owned("Add bookmarks to enable scanning"));
    }
    None
}

// ── Laws ────────────────────────────────────────────────────────────────────

/// The steps on offer are the six decades from 100 Hz to 10 MHz, in ascending order.
pub proof fn law_steps_are_decades(i: int)
    requires
        0 <= i < 5,
    ensures
        step_choice_spec(0) == 100,
        step_choice_spec(i + 1) == 10 * step_choice_spec(i),
        step_choice_spec(5) == 10_000_000,
{
}

/// The button starts a stopped receiver, in its stored mode, and stops a running one; nothing else
/// of the receiver and no setting changes.
pub proof fn law_start_and_stop(a: SdrApp, is_running: bool, n: SdrApp, s: Station)
    requires
        after_running(&a, is_running, &n),
        s.running == is_running,
    ensures
        app::received(s, &a, &n).running != is_running,
        is_running ==> app::received(s, &a, &n) == (Station { running: false, ..s }),
        !is_running ==> app::received(s, &a, &n) == (Station {
            running: true,
            demod: DemodState {
                demod_mode: receiver::stored_mode(a.config.ui.demod_mode@),
                ..s.demod
            },
            ..s
        }),
        n.config == a.config,
{
    reveal(receiver::obeyed);
    if is_running {
        app::lemma_received_one(s, &a, &n, Command::Stop);
    } else {
        app::lemma_received_two(
            s,
            &a,
            &n,
            Command::Start,
            Command::SetDemodMode(receiver::stored_mode(a.config.ui.demod_mode@)),
        );
    }
}

/// A step size chosen is the step of the receiver and the stored one.
pub proof fn law_step_takes_effect(a: SdrApp, hz: u64, n: SdrApp, s: Station)
    requires
        after_tune_step(&a, hz, &n),
    ensures
        n.config.ui == (UiConfig { tune_step_hz: hz, ..a.config.ui }),
        app::received(s, &a, &n) == (Station {
            demod: DemodState { tune_step_hz: hz, ..s.demod },
            ..s
        }),
        n.config_dirty,
{
    reveal(receiver::obeyed);
    app::lemma_received_one(s, &a, &n, Command::SetTuneStep(hz));
}

/// The nudge buttons move by one or by ten steps in the direction of their sign, and a button undoes
/// the one of the opposite sign.
pub proof fn law_nudge_moves_by_steps(
    a: SdrApp,
    step: u64,
    factor: i64,
    b: SdrApp,
    back: i64,
    c: SdrApp,
)
    requires
        factor == -10 || factor == -1 || factor == 1 || factor == 10,
        back == -factor,
        10 * step < a.config.ui.frequency_hz,
        a.config.ui.frequency_hz + 10 * step <= i64::MAX,
        after_nudge(&a, step, factor, &b),
        after_nudge(&b, step, back, &c),
    ensures
        factor == 1 ==> b.config.ui.frequency_hz == a.config.ui.frequency_hz + step,
        factor == -1 ==> b.config.ui.frequency_hz == a.config.ui.frequency_hz - step,
        factor == 10 ==> b.config.ui.frequency_hz == a.config.ui.frequency_hz + 10 * step,
        factor == -10 ==> b.config.ui.frequency_hz == a.config.ui.frequency_hz - 10 * step,
        c.config.ui.frequency_hz == a.config.ui.frequency_hz,
        b.frequency_widget.frequency_hz == b.config.ui.frequency_hz,
{
    let x = tuning::as_signed(step);
    assert(x == step);
    assert(factor == 1 ==> x * factor == x && x * back == -x) by (nonlinear_arith)
        requires
            back == -factor,
    ;
    assert(factor == -1 ==> x * factor == -x && x * back == x) by (nonlinear_arith)
        requires
            back == -factor,
    ;
    assert(factor == 10 ==> x * factor == 10 * x && x * back == -(10 * x)) by (nonlinear_arith)
        requires
            back == -factor,
    ;
    assert(factor == -10 ==> x * factor == -(10 * x) && x * back == 10 * x) by (nonlinear_arith)
        requires
            back == -factor,
    ;
}

/// The range scan button stops a running sweep and starts one otherwise, if the receiver runs: over
/// the range, in the steps and with the dwell time and the squelch of the panel, in wide FM. A
/// stopped receiver is sent nothing.
pub proof fn law_range_scan(a: SdrApp, sweeping: bool, is_running: bool, n: SdrApp)
    requires
        after_range_scan(&a, sweeping, is_running, &n),
    ensures
        n.config == a.config && n.scan == a.scan,
        sweeping ==> n.outbox@ == a.outbox@.push(Command::ScanStop),
        !sweeping && !is_running ==> n.outbox@ == a.outbox@,
        !sweeping && is_running ==> {
            &&& n.outbox@.len() == a.outbox@.len() + 1
            &&& n.outbox@.drop_last() == a.outbox@
            &&& n.outbox@.last() matches Command::ScanStartRange(r) && {
                &&& r.freq_lo == a.scan.range_lo_hz
                &&& r.freq_hi == a.scan.range_hi_hz
                &&& r.step_hz == a.scan.range_step_hz
                &&& r.dwell_secs == a.scan.range_dwell
                &&& r.squelch_dbfs == a.scan.range_squelch
                &&& r.mode == DemodMode::Wbfm
                &&& r.stereo_only == a.scan.range_stereo_only
            }
        },
{
    assert(!sweeping && is_running ==> n.outbox@.drop_last() =~= a.outbox@);
}

/// The bookmark scan button stops a running scan. Otherwise, while the receiver runs and some
/// bookmark is of the chosen category, it starts one over that category, the dwell time set first.
pub proof fn law_bookmark_scan(a: SdrApp, shared: SharedState, n: SdrApp)
    requires
        after_bookmark_scan(&a, &shared, &n),
    ensures
        ({
            let some = exists|i: int|
                0 <= i < shared.bookmarks@.len() && (a.scan.category@.len() == 0 || (
                #[trigger] shared.bookmarks@[i]).category@ == a.scan.category@);
            let on = shared.scanner.scan_running;
            &&& on ==> n.outbox@ == a.outbox@.push(Command::ScanStop)
            &&& !on && shared.is_running && some ==> n.outbox@ == a.outbox@.push(
                Command::ScanSetDwell(a.scan.dwell),
            ).push(Command::ScanStart(a.scan.category))
            &&& !on && !(shared.is_running && some) ==> n.outbox@ == a.outbox@
        }),
        n.config == a.config,
{
    law_scan_counts_the_category(shared.bookmarks@, a.scan.category@);
}

/// A scan covers the bookmarks of the category, all of them for the empty one: it covers none
/// exactly when no bookmark is of the category, all for the empty category, and one more bookmark
/// adds one or nothing.
pub proof fn law_scan_counts_the_category(v: Seq<Bookmark>, cat: Seq<char>)
    ensures
        scan_count_spec(v, cat) > 0 <==> exists|i: int|
            0 <= i < v.len() && (cat.len() == 0 || (#[trigger] v[i]).category@ == cat),
        cat.len() == 0 ==> scan_count_spec(v, cat) == v.len(),
        scan_count_spec(v, cat) <= v.len(),
        forall|b: Bookmark|
            #![trigger v.push(b)]
            scan_count_spec(v.push(b), cat) == scan_count_spec(v, cat) + (if cat.len() == 0
                || b.category@ == cat {
                1int
            } else {
                0
            }),
    decreases v.len(),
{
    assert forall|b: Bookmark|
        #![trigger v.push(b)]
        scan_count_spec(v.push(b), cat) == scan_count_spec(v, cat) + (if cat.len() == 0
            || b.category@ == cat {
            1int
        } else {
            0
        }) by {
        assert(v.push(b).drop_last() =~= v);
    }
    if v.len() > 0 {
        let rest = v.drop_last();
        law_scan_counts_the_category(rest, cat);
        if exists|i: int|
            0 <= i < v.len() && (cat.len() == 0 || (#[trigger] v[i]).category@ == cat) {
            let i = choose|i: int|
                0 <= i < v.len() && (cat.len() == 0 || (#[trigger] v[i]).category@ == cat);
            if i < rest.len() {
                assert(rest[i] == v[i]);
            }
        }
        if scan_count_spec(v, cat) > 0 {
            if in_category(v.last(), cat) {
                assert(v[v.len() - 1] == v.last());
            } else {
                let i = choose|i: int|
                    0 <= i < rest.len() && (cat.len() == 0 || (#[trigger] rest[i]).category@
                        == cat);
                assert(v[i] == rest[i]);
            }
        }
    }
}

/// Switching the rig control server toggles it and keeps its port; changing the port keeps the
/// server on or off. Moving a scan on sends just that, and a dwell time is kept by the panel and
/// sent.
pub proof fn law_scan_and_server_settings(
    a: SdrApp,
    port: u16,
    dwell: Level,
    b: SdrApp,
    c: SdrApp,
    d: SdrApp,
    e: SdrApp,
)
    requires
        after_rigctl(&a, &b),
        after_rigctl_port(&a, port, &c),
        after_scan_next(&a, &d),
        after_dwell(&a, dwell, &e),
    ensures
        b.config.rigctl.enabled != a.config.rigctl.enabled,
        b.config.rigctl.port == a.config.rigctl.port,
        c.config.rigctl.port == port,
        c.config.rigctl.enabled == a.config.rigctl.enabled,
        b.config_dirty && c.config_dirty,
        d.outbox@ == a.outbox@.push(Command::ScanNext),
        d.config == a.config,
        e.scan.dwell == dwell,
        e.outbox@ == a.outbox@.push(Command::ScanSetDwell(dwell)),
        e.scan.range_dwell == a.scan.range_dwell,
{
}

/// The source shown is its own name, for want of one the first registered, and for want of both the
/// word for no device.
pub proof fn law_source_shown(name: Option<String>, first: Option<String>)
    ensures
        name is Some ==> source_label_text(name, first) == name->0@,
        name is None && first is Some ==> source_label_text(name, first) == first->0@,
        name is None && first is None ==> source_label_text(name, first) == "No device"@,
{
}

/// The hint at the scan button counts the bookmarks once there are some and the receiver runs.
pub proof fn law_scan_hint(is_running: bool, count: nat)
    ensures
        !is_running ==> scan_tip_text(is_running, count) == "Start the radio first"@,
        is_running && count > 0 ==> text::contains_text(
            scan_tip_text(is_running, count),
            text::dec(count),
        ),
        is_running && count == 0 ==> scan_tip_text(is_running, count)
            == "No bookmarks to scan — add some first"@,
{
    if is_running && count > 0 {
        let s = scan_tip_text(is_running, count);
        let i = "Scan "@.len() as int;
        assert(s.subrange(i, i + text::dec(count).len()) =~= text::dec(count));
    }
}

/// A bookmark on a whole megahertz is listed with its name, that number and three zeros.
pub proof fn law_bookmark_listed(name: Seq<char>, mhz: nat)
    requires
        0 < mhz < 1_000_000_000,
    ensures
        bookmark_label_text(name, mhz * 1_000_000) == name + " — "@ + text::dec(mhz)
            + ".000 MHz"@,
{
    decimal::law_whole_quotient(mhz, 1_000_000, 3);
    reveal_strlit(".000 MHz");
    reveal_strlit(" MHz");
    reveal_with_fuel(text::dec_fixed, 4);
    assert(text::dec_fixed(0, 3) =~= seq!['0', '0', '0']);
    assert(bookmark_label_text(name, mhz * 1_000_000) =~= name + " — "@ + text::dec(mhz)
        + ".000 MHz"@);
}

/// The hint at the range scan button gives the range in megahertz and the step in kilohertz while the
/// receiver runs, and asks for a start otherwise.
pub proof fn law_sweep_hint(lo: nat, hi: nat, step: nat)
    requires
        0 < lo < 1_000_000,
        0 < hi < 1_000_000,
        0 < step < 1_000_000,
    ensures
        range_tip_text(true, lo * 1_000_000, hi * 1_000_000, step * 1_000) == "Sweep "@ + (
        text::dec(lo).push('.').push('0')) + "–"@ + (text::dec(hi).push('.').push('0'))
            + " MHz in "@ + text::dec(step) + " kHz steps"@,
        range_tip_text(false, lo, hi, step) == "Start the radio first"@,
{
    decimal::law_whole_quotient(lo, 1_000_000, 1);
    decimal::law_whole_quotient(hi, 1_000_000, 1);
    decimal::law_whole_quotient(step, 1_000, 0);
    reveal_with_fuel(text::dec_fixed, 2);
    assert(text::dec_fixed(0, 1) =~= seq!['0']);
    assert(text::dec(lo).push('.') + text::dec_fixed(0, 1) =~= text::dec(lo).push('.').push('0'));
    assert(text::dec(hi).push('.') + text::dec_fixed(0, 1) =~= text::dec(hi).push('.').push('0'));
}

/// A frequency entered or scrolled in the widget is sent to the receiver and stored; a frame without
/// one sends nothing and leaves the settings.
pub proof fn law_widget_tunes_the_receiver(a: SdrApp, r: DisplayFrame, n: SdrApp)
    requires
        after_widget_frame(&a, r, &n),
    ensures
        r.new_freq is Some ==> {
            &&& n.config.ui.frequency_hz == r.new_freq->0
            &&& n.outbox@.len() > a.outbox@.len()
            &&& n.outbox@.last() == Command::SetFrequency(r.new_freq->0)
            &&& n.config_dirty && n.bookmarks.prev_antenna is None
        },
        r.new_freq is None ==> n.config == a.config && n.outbox == a.outbox && n.config_dirty
            == a.config_dirty,
{
}

/// Below its buttons the scanner shows the bookmark that it is at; while it does not run it says what
/// is missing, first the running receiver, then the bookmarks.
pub proof fn law_scan_status(shared: SharedState, count: nat)
    ensures
        ({
            let s = scan_status_text(shared, count);
            let at = shared.scanner.scan_cursor as int;
            let on = shared.scanner.scan_running;
            &&& on && at < shared.bookmarks@.len() ==> s is Some && text::starts_with(
                s->0,
                shared.bookmarks@[at].name@,
            )
            &&& on && at >= shared.bookmarks@.len() ==> s is None
            &&& !on && !shared.is_running ==> s == Some("Start the radio to enable scanning"@)
            &&& !on && shared.is_running && count == 0 ==> s == Some(
                "Add bookmarks to enable scanning"@,
            )
            &&& !on && shared.is_running && count > 0 ==> s is None
        }),
{
    let s = scan_status_text(shared, count);
    let at = shared.scanner.scan_cursor as int;
    if shared.scanner.scan_running && at < shared.bookmarks@.len() {
        let name = shared.bookmarks@[at].name@;
        assert(s->0.take(name.len() as int) =~= name);
    }
}

} // verus!
