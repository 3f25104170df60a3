//! Verified core of a software-defined-radio receiver front end.
//!
//! The modules hold what the windows of the receiver decide and say: tuning and text entry, the
//! layout of the spectrum grid and the waterfall, the panels and their commands to the receiver,
//! bookmarks, MIDI bindings, the bookkeeping of the decoders and maps, and the handbook. Drawing,
//! threads, files and floating-point measurements stand outside.

// Text and numbers.
pub mod text;
pub mod decimal;
pub mod number;
pub mod single;
pub mod level;
pub mod reading;
pub mod degrees;

// Appearance.
pub mod theme;

// Tuning and display widgets.
pub mod tuning;
pub mod frequency;
pub mod knob;
pub mod spectrum;
pub mod waterfall;
pub mod signal;

// Receiver, settings and application state.
pub mod receiver;
pub mod config;
pub mod bindings;
pub mod app;
pub mod knob_binding;

// Panels.
pub mod left;
pub mod demod;
pub mod device;
pub mod bookmarks;
pub mod center;
pub mod controls;
pub mod right;
pub mod status;

// Decoders and maps.
pub mod stream;
pub mod adsb_decoder;
pub mod aircraft;
pub mod adsb_map;
pub mod orbcomm;
pub mod sat_map;

// MIDI mapper, help and handbook.
pub mod midi;
pub mod help;
pub mod handbook;
