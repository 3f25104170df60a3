//! The receiver as the front end sees it: its modes, the commands it takes and its shared state.

use std::collections::HashMap;

use vstd::prelude::*;
use vstd::string::*;

use crate::level::Level;
use crate::text;

verus! {

/// Demodulator.
#[derive(Clone, Copy, PartialEq, Eq, Structural, Debug)]
pub enum DemodMode {
    Wbfm,
    Nfm,
    Am,
    Usb,
    Lsb,
    Dsb,
    Cw,
}

impl DemodMode {
    /// The name under which a mode is stored.
    pub open spec fn stored_name(self) -> Seq<char> {
        match self {
            DemodMode::Wbfm => "Wbfm"@,
            DemodMode::Nfm => "Nfm"@,
            DemodMode::Am => "Am"@,
            DemodMode::Usb => "Usb"@,
            DemodMode::Lsb => "Lsb"@,
            DemodMode::Dsb => "Dsb"@,
            DemodMode::Cw => "Cw"@,
        }
    }

    pub fn name(self) -> (r: &'static str)
        ensures
            r@ == self.stored_name(),
    {
        match self {
            DemodMode::Wbfm => "Wbfm",
            DemodMode::Nfm => "Nfm",
            DemodMode::Am => "Am",
            DemodMode::Usb => "Usb",
            DemodMode::Lsb => "Lsb",
            DemodMode::Dsb => "Dsb",
            DemodMode::Cw => "Cw",
        }
    }
}

/// The mode stored under a name; any other text counts as wide FM.
pub open spec fn stored_mode(s: Seq<char>) -> DemodMode {
    if s == "Nfm"@ {
        DemodMode::Nfm
    } else if s == "Am"@ {
        DemodMode::Am
    } else if s == "Usb"@ {
        DemodMode::Usb
    } else if s == "Lsb"@ {
        DemodMode::Lsb
    } else if s == "Dsb"@ {
        DemodMode::Dsb
    } else if s == "Cw"@ {
        DemodMode::Cw
    } else {
        DemodMode::Wbfm
    }
}

/// Reads a stored mode name.
pub fn parse_config_demod_mode(s: &str) -> (r: DemodMode)
    ensures
        r == stored_mode(s@),
{
    if text::same_text(s, "Nfm") {
        DemodMode::Nfm
    } else if text::same_text(s, "Am") {
        DemodMode::Am
    } else if text::same_text(s, "Usb") {
        DemodMode::Usb
    } else if text::same_text(s, "Lsb") {
        DemodMode::Lsb
    } else if text::same_text(s, "Dsb") {
        DemodMode::Dsb
    } else if text::same_text(s, "Cw") {
        DemodMode::Cw
    } else {
        DemodMode::Wbfm
    }
}

/// Reading back a stored mode gives the mode.
pub proof fn law_mode_name_round_trip(mode: DemodMode)
    ensures
        stored_mode(mode.stored_name()) == mode,
{
    reveal_strlit("Wbfm");
    reveal_strlit("Nfm");
    reveal_strlit("Am");
    reveal_strlit("Usb");
    reveal_strlit("Lsb");
    reveal_strlit("Dsb");
    reveal_strlit("Cw");
    assert("Am"@.len() == 2 && "Cw"@.len() == 2 && "Wbfm"@.len() == 4);
    assert("Nfm"@[0] == 'N' && "Usb"@[0] == 'U' && "Lsb"@[0] == 'L' && "Dsb"@[0] == 'D');
    assert("Am"@[0] == 'A' && "Cw"@[0] == 'C');
}

/// FFT window function.
#[derive(Clone, Copy, PartialEq, Eq, Structural, Debug)]
pub enum FftWindow {
    Rectangular,
    Hann,
    Hamming,
    BlackmanHarris,
}

impl FftWindow {
    pub open spec fn stored_name(self) -> Seq<char> {
        match self {
            FftWindow::Rectangular => "Rectangular"@,
            FftWindow::Hann => "Hann"@,
            FftWindow::Hamming => "Hamming"@,
            FftWindow::BlackmanHarris => "BlackmanHarris"@,
        }
    }

    pub fn name(self) -> (r: &'static str)
        ensures
            r@ == self.stored_name(),
    {
        match self {
            FftWindow::Rectangular => "Rectangular",
            FftWindow::Hann => "Hann",
            FftWindow::Hamming => "Hamming",
            FftWindow::BlackmanHarris => "BlackmanHarris",
        }
    }
}

/// What a recording holds.
#[derive(Clone, Copy, PartialEq, Eq, Structural, Debug)]
pub enum RecordingMode {
    AudioOnly,
    IqOnly,
    Both,
}

impl RecordingMode {
    pub open spec fn label_text(self) -> Seq<char> {
        match self {
            RecordingMode::AudioOnly => "Audio"@,
            RecordingMode::IqOnly => "IQ"@,
            RecordingMode::Both => "Both"@,
        }
    }

    pub fn label(self) -> (r: &'static str)
        ensures
            r@ == self.label_text(),
    {
        match self {
            RecordingMode::AudioOnly => "Audio",
            RecordingMode::IqOnly => "IQ",
            RecordingMode::Both => "Both",
        }
    }
}

/// Settings of one bookmark as the receiver holds them.
pub struct Bookmark {
    pub name: String,
    pub freq_hz: u64,
    pub mode: DemodMode,
    pub category: String,
    pub nfm_bandwidth_hz: Option<u32>,
    pub squelch_threshold_dbfs: Option<Level>,
    pub ctcss_enabled: Option<bool>,
    pub antenna: Option<String>,
}

/// A command to the signal path.
pub enum Command {
    Start,
    Stop,
    StartRecording,
    StopRecording,
    SetFrequency(u64),
    SetDemodMode(DemodMode),
    SetVolume(Level),
    SetTuneStep(u64),
    SetNfmBandwidth(u32),
    SetSquelchThreshold(Level),
    SetCtcssEnabled(bool),
    SetZoom(Level),
    SetWaterfallSpeed(Level),
    SetFftSize(usize),
    SetFftWindow(FftWindow),
    SetFftAveraging(u8),
    SetBandPlanEnabled(bool),
    SetPeakHoldEnabled(bool),
    SetPeakHoldDecay(Level),
    SetAntenna(u8),
    SetDecimationFactor(u32),
    SetLnaState(u8),
    SetIfGain(i32),
    SetAgcEnabled(bool),
    SetAgcSetpoint(i32),
    SetBiasT(bool),
    SetHdrMode(bool),
    SetAmNotch(bool),
    SetFmNotch(bool),
    RestartDevice,
    AddBookmark(String),
    RemoveBookmark(usize),
    /// Replaces the bookmark at an index.
    EditBookmark(usize, Bookmark),
    ScanStart(String),
    ScanStop,
    ScanNext,
    ScanSetDwell(Level),
    ScanStartRange(RangeScan),
}

/// A sweep over a frequency range.
#[derive(Clone, Copy)]
pub struct RangeScan {
    pub freq_lo: u64,
    pub freq_hi: u64,
    pub step_hz: u64,
    pub dwell_secs: Level,
    pub squelch_dbfs: Level,
    pub mode: DemodMode,
    pub stereo_only: bool,
}

/// A command to the recorder.
#[derive(Clone, Copy)]
pub enum RecorderCommand {
    Start { freq_hz: u64, iq_sample_rate: u32, mode: RecordingMode },
    Stop,
    Schedule {
        start_unix_secs: u64,
        duration_secs: u32,
        freq_hz: u64,
        iq_sample_rate: u32,
        mode: RecordingMode,
    },
}

/// Demodulator part of the shared state.
#[derive(Clone, Copy)]
pub struct DemodState {
    pub demod_mode: DemodMode,
    pub nfm_bandwidth_hz: u32,
    pub squelch_threshold: Level,
    pub ctcss_squelch_enabled: bool,
    pub tune_step_hz: u64,
}

/// Spectrum part of the shared state.
#[derive(Clone, Copy)]
pub struct FftState {
    pub fft_size: usize,
    pub fft_window: FftWindow,
    pub fft_averaging: u8,
    pub band_plan_enabled: bool,
    pub peak_hold_enabled: bool,
    pub peak_hold_decay_db: Level,
    pub fft_clipping_detected: bool,
}

/// Scanner part of the shared state.
#[derive(Clone, Copy)]
pub struct ScannerState {
    pub scan_running: bool,
    pub scan_cursor: usize,
    pub range_mode: bool,
    pub range_freq_hz: u64,
}

/// Radio data system part of the shared state.
pub struct RdsState {
    pub ps_name: Option<String>,
    pub pty_name: Option<String>,
    pub ta: bool,
    pub rt: Option<String>,
}

/// What the signal path is set to.
pub struct Station {
    pub running: bool,
    pub recording: bool,
    pub freq_hz: u64,
    pub antenna: u8,
    pub demod: DemodState,
    pub volume: Level,
    pub zoom: Level,
    pub waterfall_speed: Level,
    pub fft: FftState,
    pub decimation: u32,
    pub lna: u8,
    pub if_gain: i32,
    pub agc: bool,
    pub agc_setpoint: i32,
    pub bias_t: bool,
    pub hdr: bool,
    pub am_notch: bool,
    pub fm_notch: bool,
}

/// The signal path once one command was carried out.
#[verifier::opaque]
pub open spec fn obeyed(s: Station, c: Command) -> Station {
    match c {
        Command::Start => Station { running: true, ..s },
        Command::Stop => Station { running: false, ..s },
        Command::StartRecording => Station { recording: true, ..s },
        Command::StopRecording => Station { recording: false, ..s },
        Command::SetFrequency(hz) => Station { freq_hz: hz, ..s },
        Command::SetAntenna(port) => Station { antenna: port, ..s },
        Command::SetVolume(volume) => Station { volume, ..s },
        Command::SetZoom(zoom) => Station { zoom, ..s },
        Command::SetWaterfallSpeed(speed) => Station { waterfall_speed: speed, ..s },
        Command::SetDecimationFactor(factor) => Station { decimation: factor, ..s },
        Command::SetLnaState(lna) => Station { lna, ..s },
        Command::SetIfGain(gain) => Station { if_gain: gain, ..s },
        Command::SetAgcEnabled(on) => Station { agc: on, ..s },
        Command::SetAgcSetpoint(dbfs) => Station { agc_setpoint: dbfs, ..s },
        Command::SetBiasT(on) => Station { bias_t: on, ..s },
        Command::SetHdrMode(on) => Station { hdr: on, ..s },
        Command::SetAmNotch(on) => Station { am_notch: on, ..s },
        Command::SetFmNotch(on) => Station { fm_notch: on, ..s },
        _ => Station { demod: obeyed_demod(s.demod, c), fft: obeyed_fft(s.fft, c), ..s },
    }
}

/// The demodulator once a command was carried out.
pub open spec fn obeyed_demod(d: DemodState, c: Command) -> DemodState {
    match c {
        Command::SetDemodMode(mode) => DemodState { demod_mode: mode, ..d },
        Command::SetNfmBandwidth(hz) => DemodState { nfm_bandwidth_hz: hz, ..d },
        Command::SetSquelchThreshold(dbfs) => DemodState { squelch_threshold: dbfs, ..d },
        Command::SetCtcssEnabled(on) => DemodState { ctcss_squelch_enabled: on, ..d },
        Command::SetTuneStep(hz) => DemodState { tune_step_hz: hz, ..d },
        _ => d,
    }
}

/// The spectrum once a command was carried out.
pub open spec fn obeyed_fft(f: FftState, c: Command) -> FftState {
    match c {
        Command::SetFftSize(size) => FftState { fft_size: size, ..f },
        Command::SetFftWindow(window) => FftState { fft_window: window, ..f },
        Command::SetFftAveraging(frames) => FftState { fft_averaging: frames, ..f },
        Command::SetBandPlanEnabled(on) => FftState { band_plan_enabled: on, ..f },
        Command::SetPeakHoldEnabled(on) => FftState { peak_hold_enabled: on, ..f },
        Command::SetPeakHoldDecay(db) => FftState { peak_hold_decay_db: db, ..f },
        _ => f,
    }
}

/// The signal path once a queue of commands was carried out, oldest first.
pub open spec fn obeyed_all(s: Station, queue: Seq<Command>) -> Station
    decreases queue.len(),
{
    if queue.len() == 0 {
        s
    } else {
        obeyed(obeyed_all(s, queue.drop_last()), queue.last())
    }
}

/// Short queues.
pub proof fn lemma_short_queues(s: Station, a: Command, b: Command, c: Command)
    ensures
        obeyed_all(s, Seq::empty()) == s,
        obeyed_all(s, seq![a]) == obeyed(s, a),
        obeyed_all(s, seq![a, b]) == obeyed(obeyed(s, a), b),
        obeyed_all(s, seq![a, b, c]) == obeyed(obeyed(obeyed(s, a), b), c),
{
    assert(seq![a].drop_last() =~= Seq::<Command>::empty());
    assert(seq![a, b].drop_last() =~= seq![a]);
    assert(seq![a, b, c].drop_last() =~= seq![a, b]);
}

/// A queue is carried out command by command: first one part of it, then the rest.
pub proof fn law_queue_in_order(s: Station, first: Seq<Command>, rest: Seq<Command>)
    ensures
        obeyed_all(s, first + rest) == obeyed_all(obeyed_all(s, first), rest),
    decreases rest.len(),
{
    if rest.len() == 0 {
        assert(first + rest =~= first);
    } else {
        law_queue_in_order(s, first, rest.drop_last());
        assert((first + rest).drop_last() =~= first + rest.drop_last());
    }
}

/// What the signal path and the front end share.
pub struct SharedState {
    pub is_running: bool,
    pub is_recording: bool,
    pub is_stereo: bool,
    pub center_freq_hz: u64,
    pub sample_rate_sps: u32,
    pub source_name: Option<String>,
    pub zoom_level: Level,
    pub waterfall_speed: Level,
    pub demod: DemodState,
    pub fft: FftState,
    pub scanner: ScannerState,
    pub rds: RdsState,
    pub bookmarks: Vec<Bookmark>,
    pub bookmark_cursor: usize,
    /// Knob that waits for the next MIDI controller.
    pub midi_learn_target: Option<String>,
    /// Controller that waits for a knob to be clicked.
    pub midi_map_pending: Option<u8>,
    /// Knob bound to each controller.
    pub midi_cc_to_knob: HashMap<u8, String>,
    pub midi_device: Option<String>,
    pub midi_page: usize,
    pub help_panel_open: bool,
    pub recording_mode: RecordingMode,
    pub recorder_error: Option<String>,
}

} // verus!
