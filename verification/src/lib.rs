//! Decision logic of a loadout preset helper for a game's loadout screen.
//!
//! The program around this library captures the loadout screen, recognizes the
//! slots shown there, and saves or applies a preset by injected input. This
//! library holds what it decides: how an observation is read, which slot is
//! clicked next, when a page turn counts as done, what the overlay shows, which
//! configuration and presets are valid. Time is handed in as milliseconds, and
//! every operation of the surrounding system is an action that the program
//! performs and answers with an event.
#![allow(unused_imports)]

pub mod app;
pub mod app_events;
pub mod app_paths;
pub mod assets;
pub mod automation;
pub mod calibration;
pub mod capture;
pub mod capture_session;
pub mod config;
pub mod direct_select;
pub mod fingerprint;
pub mod gray;
pub mod home_tone;
pub mod hotkeys;
pub mod input;
pub mod input_session;
pub mod item;
pub mod loadout;
pub mod messages;
pub mod monitors;
pub mod npy;
pub mod overlay;
pub mod overlay_icons;
pub mod overlay_layout;
pub mod overlay_visibility;
pub mod permissions;
pub mod platform;
pub mod preset_action;
pub mod presets;
pub mod single;
pub mod slot;
pub mod slot_search;
pub mod stats;
pub mod template_layers;
pub mod template_match;
pub mod template_search;
pub mod text;
pub mod tray;
pub mod vision;
pub mod window;
pub mod worker;
