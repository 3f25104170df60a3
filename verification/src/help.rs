//! The help panel: its tabs and what they say.

use vstd::prelude::*;
use vstd::string::*;

use crate::midi::ActionBinding;
use crate::text;

verus! {

// ── Panel ───────────────────────────────────────────────────────────────────

#[derive(Clone, Copy, PartialEq, Eq, Structural, Debug)]
pub enum HelpTab {
    Overview,
    Antennas,
    Signals,
    Controls,
    MidiMap,
}

impl Default for HelpTab {
    fn default() -> (t: HelpTab)
        ensures
            t == HelpTab::Overview,
    {
        HelpTab::Overview
    }
}

impl HelpTab {
    /// The caption of the tab.
    pub fn label(self) -> (r: &'static str)
        ensures
            r@ == match self {
                HelpTab::Overview => "Overview"@,
                HelpTab::Antennas => "Antennas"@,
                HelpTab::Signals => "Signals"@,
                HelpTab::Controls => "Controls"@,
                HelpTab::MidiMap => "MIDI Map"@,
            },
    {
        match self {
            HelpTab::Overview => "Overview",
            HelpTab::Antennas => "Antennas",
            HelpTab::Signals => "Signals",
            HelpTab::Controls => "Controls",
            HelpTab::MidiMap => "MIDI Map",
        }
    }
}

/// The help panel.
pub struct HelpPanel {
    /// The open tab.
    pub tab: HelpTab,
}

impl Default for HelpPanel {
    fn default() -> (p: HelpPanel)
        ensures
            p.tab == HelpTab::Overview,
    {
        HelpPanel { tab: HelpTab::Overview }
    }
}

impl HelpPanel {
    /// Opens a tab.
    pub fn select(&mut self, tab: HelpTab)
        ensures
            *final(self) == (HelpPanel { tab }),
    {
        self.tab = tab;
    }
}

// ── MIDI map ────────────────────────────────────────────────────────────────

/// Number of pages of the controller.
pub const PAGES: usize = 3;

/// The name of a page.
pub open spec fn page_text(page: int) -> Seq<char> {
    if page == 0 {
        "Tune"@
    } else if page == 1 {
        "Display"@
    } else {
        "Record"@
    }
}

/// The heading of a page.
pub fn page_heading(page: usize) -> (r: String)
    requires
        page < PAGES,
    ensures
        r@ == "Page "@ + text::dec(page as nat) + ": "@ + page_text(page as int),
{
    let mut s: String = text::owned("Page ");
    text::push_dec(&mut s, page as u64);
    s.append(": ");
    match page {
        0 => s.append("Tune"),
        1 => s.append("Display"),
        _ => s.append("Record"),
    }
    s
}

/// `v` lists the entries of `table` that belong to `page`, by their indices, in order.
pub open spec fn is_page_of(v: Seq<usize>, table: Seq<ActionBinding>, page: int) -> bool {
    &&& forall|i: int|
        0 <= i < v.len() ==> (#[trigger] v[i]) < table.len() && table[v[i] as int].page == page
    &&& forall|i: int, j: int| 0 <= i < j < v.len() ==> #[trigger] v[i] < #[trigger] v[j]
    &&& forall|k: int|
        0 <= k < table.len() && (#[trigger] table[k]).page == page ==> v.contains(k as usize)
}

pub fn page_bindings(table: &Vec<ActionBinding>, page: usize) -> (v: Vec<usize>)
    ensures
        is_page_of(v@, table@, page as int),
{
    let mut v: Vec<usize> = Vec::new();
    let mut n: usize = 0;
    while n < table.len()
        invariant
            n <= table.len(),
            forall|i: int|
                0 <= i < v@.len() ==> (#[trigger] v@[i]) < n && table@[v@[i] as int].page == page,
            forall|i: int, j: int| 0 <= i < j < v@.len() ==> #[trigger] v@[i] < #[trigger] v@[j],
            forall|k: int|
                0 <= k < n && (#[trigger] table@[k]).page == page ==> v@.contains(k as usize),
        decreases table.len() - n,
    {
        let ghost before = v@;
        if table[n].page == page {
            v.push(n);
            assert(v@[before.len() as int] == n);
        }
        proof {
            assert forall|k: int|
                0 <= k < n + 1 && (#[trigger] table@[k]).page == page implies v@.contains(
                k as usize,
            ) by {
                if k < n {
                    assert(before.contains(k as usize));
                    let i = choose|i: int| 0 <= i < before.len() && before[i] == k as usize;
                    assert(v@[i] == k as usize);
                }
            }
        }
        n += 1;
    }
    v
}

/// A line of a list.
pub fn bullet(line: &str) -> (r: String)
    ensures
        r@ == "• "@ + line@,
{
    let mut s: String = text::owned("• ");
    s.append(line);
    s
}

// ── Texts ───────────────────────────────────────────────────────────────────

/// Which antenna suits a band.
#[derive(Clone, Copy)]
pub struct AntennaRow {
    pub band: &'static str,
    pub freq_range: &'static str,
    pub antenna: &'static str,
    pub notes: &'static str,
}

/// A key and what it does.
#[derive(Clone, Copy)]
pub struct KeyRow {
    pub key: &'static str,
    pub action: &'static str,
}

/// A demodulation mode.
#[derive(Clone, Copy)]
pub struct ModeRow {
    pub title: &'static str,
    pub about: &'static str,
}

/// What the receiver does.
pub fn overview() -> (r: &'static str)
    ensures
        r@ == "A software-defined radio receiver for the SDRplay RSPdx-R2. Demodulates AM, \
               narrow-band FM, and wide-band FM broadcast. RDS data (station name, programme \
               type, RadioText) is decoded from WBFM broadcasts."@,
{
    "A software-defined radio receiver for the SDRplay RSPdx-R2. Demodulates AM, narrow-band FM, \
     and wide-band FM broadcast. RDS data (station name, programme type, RadioText) is decoded \
     from WBFM broadcasts."
}

/// The first steps.
pub fn quick_start() -> (v: Vec<&'static str>)
    ensures
        v@ == seq![
            "1. Connect antenna to the appropriate port (see Antennas tab).",
            "2. Press ▶ Start in the left panel to begin receiving.",
            "3. Tune to a frequency: click the frequency display and type, scroll the spectrum, \
             or use ↑↓ arrow keys.",
            "4. Select demod mode: WBFM for FM broadcasts (88–108 MHz), NFM for voice (aviation, \
             marine, amateur), AM for broadcast below 1.7 MHz.",
            "5. Adjust squelch in NFM mode to gate out noise between transmissions.",
            "6. Press ● Record in the right panel to save audio.",
        ],
{
    let v: Vec<&'static str> = vec![
        "1. Connect antenna to the appropriate port (see Antennas tab).",
        "2. Press ▶ Start in the left panel to begin receiving.",
        "3. Tune to a frequency: click the frequency display and type, scroll the spectrum, or \
         use ↑↓ arrow keys.",
        "4. Select demod mode: WBFM for FM broadcasts (88–108 MHz), NFM for voice (aviation, \
         marine, amateur), AM for broadcast below 1.7 MHz.",
        "5. Adjust squelch in NFM mode to gate out noise between transmissions.",
        "6. Press ● Record in the right panel to save audio.",
    ];
    v
}

/// The antenna ports of the device.
pub fn antenna_ports() -> (r: &'static str)
    ensures
        r@ == "The RSPdx-R2 has three antenna ports. Antenna A covers the widest range (1 kHz – \
               2 GHz). Antenna B/C are for specific use cases per the SDRplay documentation."@,
{
    "The RSPdx-R2 has three antenna ports. Antenna A covers the widest range (1 kHz – 2 GHz). \
     Antenna B/C are for specific use cases per the SDRplay documentation."
}

/// The antennas, band by band.
pub fn antenna_table() -> (v: Vec<AntennaRow>)
    ensures
        v@ == seq![
            AntennaRow {
                band: "AM Broadcast",
                freq_range: "530 kHz – 1.7 MHz",
                antenna: "Long wire (10–30 m) or ferrite loop",
                notes: "Long horizontal wire on RSPdx Antenna A. Indoor ferrite loop also works \
                        well.",
            },
            AntennaRow {
                band: "Shortwave / HF",
                freq_range: "1.7 – 30 MHz",
                antenna: "Long wire, dipole, or end-fed half-wave",
                notes: "Longer is better. Avoid coax runs > 10 m without a balun.",
            },
            AntennaRow {
                band: "Aviation (VHF)",
                freq_range: "108 – 137 MHz",
                antenna: "1/4-wave vertical (~52 cm), mag-mount",
                notes: "AM-mode for VOR/ILS below 118 MHz. NFM for voice above.",
            },
            AntennaRow {
                band: "FM Broadcast",
                freq_range: "87.5 – 108 MHz",
                antenna: "Dipole or discone",
                notes: "1/2-wave dipole = 138 cm total length. WBFM mode, 200 kHz channel \
                        spacing.",
            },
            AntennaRow {
                band: "Marine VHF",
                freq_range: "156 – 174 MHz",
                antenna: "1/4-wave vertical (~46 cm) or discone",
                notes: "NFM, 25 kHz channels. Channel 16 (156.8 MHz) = distress calling channel.",
            },
            AntennaRow {
                band: "2m Amateur",
                freq_range: "144 – 148 MHz",
                antenna: "1/4-wave vertical (~49 cm) or Yagi",
                notes: "NFM. Most repeaters on 144.3–147.99 MHz. Squelch around -70 dBFS.",
            },
            AntennaRow {
                band: "PMR / Business",
                freq_range: "446 – 470 MHz",
                antenna: "1/4-wave vertical (~16 cm) or discone",
                notes: "NFM, 12.5 kHz channels. Includes emergency services and PMR446.",
            },
            AntennaRow {
                band: "70cm Amateur / ADS-B",
                freq_range: "430 – 440 MHz / 1090 MHz",
                antenna: "Vertical or discone",
                notes: "ADS-B at 1090 MHz benefits from a collinear or helical antenna.",
            },
            AntennaRow {
                band: "GPS / GNSS",
                freq_range: "1575 MHz (L1)",
                antenna: "Active patch antenna with LNA",
                notes: "Requires antenna with built-in LNA. RSPdx Antenna C preferred for L-band.",
            },
        ],
{
    let v: Vec<AntennaRow> = vec![
        AntennaRow {
            band: "AM Broadcast",
            freq_range: "530 kHz – 1.7 MHz",
            antenna: "Long wire (10–30 m) or ferrite loop",
            notes: "Long horizontal wire on RSPdx Antenna A. Indoor ferrite loop also works well.",
        },
        AntennaRow {
            band: "Shortwave / HF",
            freq_range: "1.7 – 30 MHz",
            antenna: "Long wire, dipole, or end-fed half-wave",
            notes: "Longer is better. Avoid coax runs > 10 m without a balun.",
        },
        AntennaRow {
            band: "Aviation (VHF)",
            freq_range: "108 – 137 MHz",
            antenna: "1/4-wave vertical (~52 cm), mag-mount",
            notes: "AM-mode for VOR/ILS below 118 MHz. NFM for voice above.",
        },
        AntennaRow {
            band: "FM Broadcast",
            freq_range: "87.5 – 108 MHz",
            antenna: "Dipole or discone",
            notes: "1/2-wave dipole = 138 cm total length. WBFM mode, 200 kHz channel spacing.",
        },
        AntennaRow {
            band: "Marine VHF",
            freq_range: "156 – 174 MHz",
            antenna: "1/4-wave vertical (~46 cm) or discone",
            notes: "NFM, 25 kHz channels. Channel 16 (156.8 MHz) = distress calling channel.",
        },
        AntennaRow {
            band: "2m Amateur",
            freq_range: "144 – 148 MHz",
            antenna: "1/4-wave vertical (~49 cm) or Yagi",
            notes: "NFM. Most repeaters on 144.3–147.99 MHz. Squelch around -70 dBFS.",
        },
        AntennaRow {
            band: "PMR / Business",
            freq_range: "446 – 470 MHz",
            antenna: "1/4-wave vertical (~16 cm) or discone",
            notes: "NFM, 12.5 kHz channels. Includes emergency services and PMR446.",
        },
        AntennaRow {
            band: "70cm Amateur / ADS-B",
            freq_range: "430 – 440 MHz / 1090 MHz",
            antenna: "Vertical or discone",
            notes: "ADS-B at 1090 MHz benefits from a collinear or helical antenna.",
        },
        AntennaRow {
            band: "GPS / GNSS",
            freq_range: "1575 MHz (L1)",
            antenna: "Active patch antenna with LNA",
            notes: "Requires antenna with built-in LNA. RSPdx Antenna C preferred for L-band.",
        },
    ];
    v
}

/// An antenna for all bands.
pub fn antenna_tip() -> (r: &'static str)
    ensures
        r@ == "Tip: A discone antenna covers 25 MHz – 1.3 GHz omnidirectionally and is the best \
               all-round choice for scanning across multiple bands."@,
{
    "Tip: A discone antenna covers 25 MHz – 1.3 GHz omnidirectionally and is the best all-round \
     choice for scanning across multiple bands."
}

/// The demodulation modes.
pub fn mode_table() -> (v: Vec<ModeRow>)
    ensures
        v@ == seq![
            ModeRow {
                title: "WBFM — Wideband FM",
                about: "FM broadcast stations (88–108 MHz). 75 kHz deviation, 200 kHz channel \
                        spacing. Includes stereo pilot (19 kHz) and RDS data subcarrier (57 \
                        kHz). Expect: music, speech, RDS station name and RadioText.",
            },
            ModeRow {
                title: "NFM — Narrow FM",
                about: "Voice communications: aviation (118–137 MHz, AM!), marine VHF (156–174 \
                        MHz), amateur 2m/70cm, PMR446, emergency services. 12.5–25 kHz channel \
                        spacing. Use squelch to gate out noise between transmissions.",
            },
            ModeRow {
                title: "AM — Amplitude Modulation",
                about: "AM broadcast (530 kHz – 1.7 MHz), shortwave, aviation voice (108–137 \
                        MHz). Envelope detector — signals appear as two sidebands symmetric \
                        around the carrier on the spectrum.",
            },
        ],
{
    let v: Vec<ModeRow> = vec![
        ModeRow {
            title: "WBFM — Wideband FM",
            about: "FM broadcast stations (88–108 MHz). 75 kHz deviation, 200 kHz channel \
                    spacing. Includes stereo pilot (19 kHz) and RDS data subcarrier (57 kHz). \
                    Expect: music, speech, RDS station name and RadioText.",
        },
        ModeRow {
            title: "NFM — Narrow FM",
            about: "Voice communications: aviation (118–137 MHz, AM!), marine VHF (156–174 MHz), \
                    amateur 2m/70cm, PMR446, emergency services. 12.5–25 kHz channel spacing. \
                    Use squelch to gate out noise between transmissions.",
        },
        ModeRow {
            title: "AM — Amplitude Modulation",
            about: "AM broadcast (530 kHz – 1.7 MHz), shortwave, aviation voice (108–137 MHz). \
                    Envelope detector — signals appear as two sidebands symmetric around the \
                    carrier on the spectrum.",
        },
    ];
    v
}

/// How to read spectrum and waterfall.
pub fn waterfall_tips() -> (v: Vec<&'static str>)
    ensures
        v@ == seq![
            "The spectrum (top) shows signal power in dBFS at each frequency. Higher = stronger \
             signal.",
            "The waterfall (bottom) shows time history — each row is one FFT frame. Brighter = \
             stronger signal.",
            "A carrier appears as a sharp vertical spike. Modulated audio creates a band of \
             width proportional to deviation.",
            "FM broadcast stations occupy ~±100 kHz around the carrier (visible as a wide band \
             on the spectrum).",
            "RDS data creates a small cluster of peaks at ±57 kHz from the carrier.",
            "Scroll the spectrum to tune frequency. Ctrl+Scroll to zoom. Click anywhere to \
             retune to that frequency.",
        ],
{
    let v: Vec<&'static str> = vec![
        "The spectrum (top) shows signal power in dBFS at each frequency. Higher = stronger \
         signal.",
        "The waterfall (bottom) shows time history — each row is one FFT frame. Brighter = \
         stronger signal.",
        "A carrier appears as a sharp vertical spike. Modulated audio creates a band of width \
         proportional to deviation.",
        "FM broadcast stations occupy ~±100 kHz around the carrier (visible as a wide band on \
         the spectrum).",
        "RDS data creates a small cluster of peaks at ±57 kHz from the carrier.",
        "Scroll the spectrum to tune frequency. Ctrl+Scroll to zoom. Click anywhere to retune to \
         that frequency.",
    ];
    v
}

/// What the radio data system tells.
pub fn rds_notes() -> (v: Vec<&'static str>)
    ensures
        v@ == seq![
            "PS Name (Programme Service): up to 8 characters — the station's short name (e.g. \
             'BBC R4  ').",
            "PTY (Programme Type): genre code 0–31. Code 1 = News, 4 = Sport, 10 = Pop, etc.",
            "TA (Traffic Announcement): amber badge appears when a live traffic report is in \
             progress.",
            "RT (RadioText): up to 64 characters of scrolling text — song title, show name, \
             phone-in numbers.",
            "RDS data is reset when you retune or change demod mode. Allow 2–3 seconds for \
             reassembly.",
        ],
{
    let v: Vec<&'static str> = vec![
        "PS Name (Programme Service): up to 8 characters — the station's short name (e.g. 'BBC \
         R4  ').",
        "PTY (Programme Type): genre code 0–31. Code 1 = News, 4 = Sport, 10 = Pop, etc.",
        "TA (Traffic Announcement): amber badge appears when a live traffic report is in \
         progress.",
        "RT (RadioText): up to 64 characters of scrolling text — song title, show name, phone-in \
         numbers.",
        "RDS data is reset when you retune or change demod mode. Allow 2–3 seconds for \
         reassembly.",
    ];
    v
}

/// The keys.
pub fn key_table() -> (v: Vec<KeyRow>)
    ensures
        v@ == seq![
            KeyRow {
                key: "↑ / ↓",
                action: "Tune frequency by step size",
            },
            KeyRow {
                key: "← / →",
                action: "Tune frequency by 10× step size",
            },
            KeyRow {
                key: "Scroll on spectrum",
                action: "Tune frequency by step size",
            },
            KeyRow {
                key: "Ctrl+Scroll",
                action: "Zoom spectrum in/out",
            },
            KeyRow {
                key: "Click spectrum",
                action: "Click-to-tune: retune to clicked frequency",
            },
            KeyRow {
                key: "Click waterfall",
                action: "Click-to-tune on waterfall history",
            },
            KeyRow {
                key: "?",
                action: "Open/close this help panel",
            },
        ],
{
    let v: Vec<KeyRow> = vec![
        KeyRow {
            key: "↑ / ↓",
            action: "Tune frequency by step size",
        },
        KeyRow {
            key: "← / →",
            action: "Tune frequency by 10× step size",
        },
        KeyRow {
            key: "Scroll on spectrum",
            action: "Tune frequency by step size",
        },
        KeyRow {
            key: "Ctrl+Scroll",
            action: "Zoom spectrum in/out",
        },
        KeyRow {
            key: "Click spectrum",
            action: "Click-to-tune: retune to clicked frequency",
        },
        KeyRow {
            key: "Click waterfall",
            action: "Click-to-tune on waterfall history",
        },
        KeyRow {
            key: "?",
            action: "Open/close this help panel",
        },
    ];
    v
}

/// The keys of the shortcut overlay.
pub fn shortcut_keys() -> (v: Vec<KeyRow>)
    ensures
        v@ == seq![
            KeyRow { key: "Space", action: "Start / Stop" },
            KeyRow { key: "↑ / ↓", action: "Tune up / down" },
            KeyRow { key: "Ctrl+↑/↓", action: "Tune by 10×" },
            KeyRow { key: "PgUp/PgDn", action: "Tune coarse" },
            KeyRow { key: "F1–F6", action: "Demod mode" },
            KeyRow { key: "?", action: "This overlay" },
            KeyRow { key: "Ctrl+,", action: "Settings" },
            KeyRow { key: "Ctrl+Z", action: "Zoom in" },
            KeyRow { key: "Ctrl+X", action: "Zoom out" },
        ],
{
    let v: Vec<KeyRow> = vec![
        KeyRow { key: "Space", action: "Start / Stop" },
        KeyRow { key: "↑ / ↓", action: "Tune up / down" },
        KeyRow { key: "Ctrl+↑/↓", action: "Tune by 10×" },
        KeyRow { key: "PgUp/PgDn", action: "Tune coarse" },
        KeyRow { key: "F1–F6", action: "Demod mode" },
        KeyRow { key: "?", action: "This overlay" },
        KeyRow { key: "Ctrl+,", action: "Settings" },
        KeyRow { key: "Ctrl+Z", action: "Zoom in" },
        KeyRow { key: "Ctrl+X", action: "Zoom out" },
    ];
    v
}

/// The gestures of the shortcut overlay.
pub fn shortcut_gestures() -> (v: Vec<KeyRow>)
    ensures
        v@ == seq![
            KeyRow { key: "Click spectrum", action: "Jump to frequency" },
            KeyRow { key: "Scroll", action: "Tune step" },
            KeyRow { key: "Ctrl+Scroll", action: "Zoom" },
            KeyRow { key: "Drag spectrum", action: "Pan frequency" },
            KeyRow { key: "Drag waterfall", action: "Pan frequency" },
            KeyRow { key: "Drag divider", action: "Resize panels" },
            KeyRow { key: "Right-click knob", action: "MIDI learn" },
        ],
{
    let v: Vec<KeyRow> = vec![
        KeyRow { key: "Click spectrum", action: "Jump to frequency" },
        KeyRow { key: "Scroll", action: "Tune step" },
        KeyRow { key: "Ctrl+Scroll", action: "Zoom" },
        KeyRow { key: "Drag spectrum", action: "Pan frequency" },
        KeyRow { key: "Drag waterfall", action: "Pan frequency" },
        KeyRow { key: "Drag divider", action: "Resize panels" },
        KeyRow { key: "Right-click knob", action: "MIDI learn" },
    ];
    v
}

/// The hardware controls of the shortcut overlay.
pub fn shortcut_controls() -> (v: Vec<KeyRow>)
    ensures
        v@ == seq![
            KeyRow { key: "CYCLE btn", action: "Next page" },
            KeyRow { key: "▶ Play", action: "Play toggle" },
            KeyRow { key: "■ Stop", action: "Stop" },
            KeyRow { key: "● Rec", action: "Record toggle" },
            KeyRow { key: "Page 0 knobs", action: "Tune (4 speeds)" },
            KeyRow { key: "Page 1 faders", action: "Display controls" },
            KeyRow { key: "Page 2 S-btns", action: "Record start/stop" },
            KeyRow { key: "|◄  ►|", action: "Bookmark prev/next" },
        ],
{
    let v: Vec<KeyRow> = vec![
        KeyRow { key: "CYCLE btn", action: "Next page" },
        KeyRow { key: "▶ Play", action: "Play toggle" },
        KeyRow { key: "■ Stop", action: "Stop" },
        KeyRow { key: "● Rec", action: "Record toggle" },
        KeyRow { key: "Page 0 knobs", action: "Tune (4 speeds)" },
        KeyRow { key: "Page 1 faders", action: "Display controls" },
        KeyRow { key: "Page 2 S-btns", action: "Record start/stop" },
        KeyRow { key: "|◄  ►|", action: "Bookmark prev/next" },
    ];
    v
}

/// Hints for tuning.
pub fn tuning_tips() -> (v: Vec<&'static str>)
    ensures
        v@ == seq![
            "Scroll step size is shown below the frequency display — click to cycle: 100 Hz → 1 \
             kHz → 10 kHz → 100 kHz.",
            "Left/Right arrows step at 10× the current step size for faster tuning.",
            "Band presets (right panel) jump to common broadcast bands with appropriate span.",
            "Bookmarks (left panel) save and recall your favourite frequencies with demod mode.",
            "The MIDI nanoKontrol2 gives hardware control over all tuning, zoom, and recording \
             functions.",
        ],
{
    let v: Vec<&'static str> = vec![
        "Scroll step size is shown below the frequency display — click to cycle: 100 Hz → 1 kHz \
         → 10 kHz → 100 kHz.",
        "Left/Right arrows step at 10× the current step size for faster tuning.",
        "Band presets (right panel) jump to common broadcast bands with appropriate span.",
        "Bookmarks (left panel) save and recall your favourite frequencies with demod mode.",
        "The MIDI nanoKontrol2 gives hardware control over all tuning, zoom, and recording \
         functions.",
    ];
    v
}

// ── Laws ────────────────────────────────────────────────────────────────────

/// A page of the MIDI map lists the entries of the profile for that page, each once, in the order of
/// the profile, and no others. The pages are for tuning, the display and recording.
pub proof fn law_page_lists_its_entries(v: Seq<usize>, table: Seq<ActionBinding>, page: int, k: int)
    requires
        is_page_of(v, table, page),
        0 <= k < table.len() <= usize::MAX,
    ensures
        v.contains(k as usize) <==> table[k].page == page,
        v.no_duplicates(),
        forall|i: int, j: int| 0 <= i < j < v.len() ==> #[trigger] v[i] < #[trigger] v[j],
        page_text(0) == "Tune"@,
        page_text(1) == "Display"@,
        page_text(2) == "Record"@,
{
    if v.contains(k as usize) {
        let i = choose|i: int| 0 <= i < v.len() && v[i] == k as usize;
        assert(table[v[i] as int].page == page);
    }
    assert forall|i: int, j: int| 0 <= i < v.len() && 0 <= j < v.len() && i != j implies v[i]
        != v[j] by {
        if i < j {
            assert(v[i] < v[j]);
        } else {
            assert(v[j] < v[i]);
        }
    }
}

} // verus!
