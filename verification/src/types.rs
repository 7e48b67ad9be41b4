use vstd::prelude::*;

verus! {

/// The last MIDI event shown on the main screen.
#[derive(Clone, Copy, Debug, PartialEq, Eq, Structural)]
pub enum LastEvent {
    Note { note: u8 },
    Cc { num: u8, value: u8 },
    Clear,
}

/// What the main screen shows.
#[derive(Clone, Copy)]
pub struct DisplayState {
    pub last_event: Option<LastEvent>,
    pub melody_channel: u8,
    pub drum_channel: u8,
    pub recalibrating: bool,
    pub current_voice: Option<u8>,
    /// 0–10, mapped from CC7 (0–127).
    pub volume_level: Option<u8>,
    /// (preset mode, column) of the last preset button pressed; column is 0/1/2 for key
    /// A/B/C. Only drawn while the preset mode still matches the live setting.
    pub current_preset: Option<(u8, u8)>,
}

impl DisplayState {
    pub fn new() -> (s: Self)
        ensures
            s.last_event is None,
            s.melody_channel == 1,
            s.drum_channel == 9,
            !s.recalibrating,
            s.current_voice is None,
            s.volume_level is None,
            s.current_preset is None,
    {
        Self {
            last_event: None,
            melody_channel: 1,
            drum_channel: 9,
            recalibrating: false,
            current_voice: None,
            volume_level: None,
            current_preset: None,
        }
    }
}

} // verus!
