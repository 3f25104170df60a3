//! Persistent settings.

use vstd::prelude::*;
use vstd::string::*;

use crate::bindings::Binding;
use crate::degrees::Degrees;
use crate::level::Level;

verus! {

/// Settings of the front end.
pub struct UiConfig {
    pub frequency_hz: u64,
    pub span_hz: u64,
    pub demod_mode: String,
    pub nfm_bandwidth_hz: u32,
    pub ctcss_enabled: bool,
    pub volume: Level,
    pub zoom_level: Level,
    pub waterfall_speed: Level,
    pub tune_step_hz: u64,
    pub fft_size: usize,
    pub fft_window: String,
    pub fft_averaging: u8,
    pub band_plan_enabled: bool,
    pub fft_floor: Level,
    pub fft_ceil: Level,
    pub waterfall_colormap: String,
    /// Share of the height that the spectrum takes.
    pub spectrum_split: Level,
    pub seen_onboarding: bool,
    pub show_handbook: bool,
    pub handbook_section: usize,
    pub handbook_page: usize,
    pub adsb_map: MapConfig,
}

/// Settings of the aircraft map.
#[derive(Clone, Copy)]
pub struct MapConfig {
    pub show: bool,
    pub home_lat: Degrees,
    pub home_lon: Degrees,
    pub lat: Degrees,
    pub lon: Degrees,
    pub zoom: Level,
}

/// Settings of the source device.
pub struct SourceConfig {
    /// Antenna port, `"A"`, `"B"` or `"C"`.
    pub antenna: String,
    pub sample_rate_sps: u32,
    pub if_mode: String,
    pub decimation_factor: u32,
    pub agc_enabled: bool,
    pub agc_setpoint_dbfs: i32,
    pub lna_state: u8,
    pub if_gain_dbfs: i32,
    pub bias_t_enabled: bool,
    pub hdr_mode: bool,
    pub am_notch_enabled: bool,
    pub fm_notch_enabled: bool,
}

/// Settings of the rig control server.
#[derive(Clone, Copy)]
pub struct RigctlConfig {
    pub enabled: bool,
    pub port: u16,
}

/// A stored bookmark.
pub struct BookmarkConfig {
    pub name: String,
    pub freq_hz: u64,
    pub mode: String,
    pub category: String,
    pub nfm_bandwidth_hz: Option<u32>,
    pub squelch_threshold_dbfs: Option<Level>,
    pub ctcss_enabled: Option<bool>,
    pub antenna: Option<String>,
}

pub struct AppConfig {
    pub ui: UiConfig,
    pub source: SourceConfig,
    pub rigctl: RigctlConfig,
    pub bookmarks: Vec<BookmarkConfig>,
    pub bookmarks_file: Option<String>,
    pub bookmarks_export_path: String,
    /// Learned MIDI bindings, each knob once.
    pub midi_learn: Vec<Binding>,
}

} // verus!
