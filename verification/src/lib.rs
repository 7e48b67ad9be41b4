//! hall_effect_keyboard — the verified logic of a hall-effect MIDI keyboard on an
//! Electrosmith Daisy Seed: switch scanning, MIDI output, settings storage and screens.
pub mod calibration;
pub mod constants;
pub mod display;
pub mod events;
pub mod hardware;
pub mod midi;
pub mod queue;
pub mod scan;
pub mod settings;
pub mod storage;
pub mod switch;
pub mod types;
