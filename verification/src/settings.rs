use vstd::prelude::*;

verus! {

/// Number of entries in the settings menu.
pub const NUM_SETTINGS_ITEMS: usize = 6;

/// One entry of the settings menu: its label and the range of display values it accepts.
pub struct SettingsItem {
    pub name: &'static str,
    pub min: i16,
    pub max: i16,
}

/// Labels of the settings menu, in display order.
pub const SETTINGS_ITEM_NAMES: [&'static str; NUM_SETTINGS_ITEMS] = [
    "MELODY CHANNEL",
    "DRUM CHANNEL",
    "OCTAVE",
    "BEND RANGE",
    "MELODY PROGRAM",
    "DRUM PROGRAM",
];

/// Lowest display value of each menu item.
pub const SETTINGS_ITEM_MIN: [i16; NUM_SETTINGS_ITEMS] = [1, 1, 2, 1, 0, 0];

/// Highest display value of each menu item.
pub const SETTINGS_ITEM_MAX: [i16; NUM_SETTINGS_ITEMS] = [16, 16, 5, 12, 127, 127];

/// Lowest display value of menu item `idx`.
pub open spec fn item_min(idx: int) -> i16 {
    SETTINGS_ITEM_MIN@[idx]
}

/// Highest display value of menu item `idx`.
pub open spec fn item_max(idx: int) -> i16 {
    SETTINGS_ITEM_MAX@[idx]
}

/// The menu entry at position `idx`.
pub fn settings_item(idx: usize) -> (item: SettingsItem)
    requires
        idx < NUM_SETTINGS_ITEMS,
    ensures
        item.name == SETTINGS_ITEM_NAMES@[idx as int],
        item.min == item_min(idx as int),
        item.max == item_max(idx as int),
{
    SettingsItem {
        name: SETTINGS_ITEM_NAMES[idx],
        min: SETTINGS_ITEM_MIN[idx],
        max: SETTINGS_ITEM_MAX[idx],
    }
}

/// `value` clamped into `[lo, hi]`.
pub open spec fn clamp_spec(value: int, lo: int, hi: int) -> int {
    if value < lo {
        lo
    } else if value > hi {
        hi
    } else {
        value
    }
}

#[derive(Clone, Copy, Debug)]
pub struct Settings {
    /// 0-indexed (0–15), displayed as 1–16.
    pub melody_channel: u8,
    /// 0-indexed (0–15), displayed as 1–16.
    pub drum_channel: u8,
    pub octave: i8,
    /// Semitones, 1–12.
    pub pitch_bend_range: u8,
    /// 0–127, sent as a program change on the melody channel.
    pub melody_program: u8,
    /// 0–127, sent as a program change on the drum channel.
    pub drum_program: u8,
    pub vibrato_enabled: bool,
}

impl Settings {
    /// The display value of menu item `idx` (channels are shown 1-indexed); 0 for an unknown item.
    pub open spec fn display_value(self, idx: int) -> int {
        if idx == 0 {
            self.melody_channel + 1
        } else if idx == 1 {
            self.drum_channel + 1
        } else if idx == 2 {
            self.octave as int
        } else if idx == 3 {
            self.pitch_bend_range as int
        } else if idx == 4 {
            self.melody_program as int
        } else if idx == 5 {
            self.drum_program as int
        } else {
            0
        }
    }

    /// Every field lies in the range that the menu and the stored record accept.
    pub open spec fn valid(self) -> bool {
        &&& self.melody_channel <= 15
        &&& self.drum_channel <= 15
        &&& 2 <= self.octave <= 5
        &&& 1 <= self.pitch_bend_range <= 12
        &&& self.melody_program <= 127
        &&& self.drum_program <= 127
    }

    pub fn default() -> (s: Self)
        ensures
            s.melody_channel == 0,
            s.drum_channel == 9,
            s.octave == 2,
            s.pitch_bend_range == 2,
            s.melody_program == 0,
            s.drum_program == 0,
            !s.vibrato_enabled,
            s.valid(),
    {
        Self {
            melody_channel: 0,
            drum_channel: 9,
            octave: 2,
            pitch_bend_range: 2,
            melody_program: 0,
            drum_program: 0,
            vibrato_enabled: false,
        }
    }

    /// Returns the display value for menu item `idx` (channels are 1-indexed).
    pub fn get(&self, idx: usize) -> (v: i16)
        ensures
            v == self.display_value(idx as int),
    {
        match idx {
            0 => self.melody_channel as i16 + 1,
            1 => self.drum_channel as i16 + 1,
            2 => self.octave as i16,
            3 => self.pitch_bend_range as i16,
            4 => self.melody_program as i16,
            5 => self.drum_program as i16,
            _ => 0,
        }
    }

    /// Sets menu item `idx` from a display value, clamping to the item's range.
    pub fn set(&mut self, idx: usize, value: i16)
        requires
            idx < NUM_SETTINGS_ITEMS,
        ensures
            final(self).display_value(idx as int) == clamp_spec(
                value as int,
                item_min(idx as int) as int,
                item_max(idx as int) as int,
            ),
            forall|j: int| j != idx ==> final(self).display_value(j) == old(self).display_value(j),
            final(self).vibrato_enabled == old(self).vibrato_enabled,
    {
        let item = settings_item(idx);
        let v = if value < item.min {
            item.min
        } else if value > item.max {
            item.max
        } else {
            value
        };
        match idx {
            0 => self.melody_channel = (v - 1) as u8,
            1 => self.drum_channel = (v - 1) as u8,
            2 => self.octave = v as i8,
            3 => self.pitch_bend_range = v as u8,
            4 => self.melody_program = v as u8,
            _ => self.drum_program = v as u8,
        }
    }

    /// Moves menu item `idx` by `delta` display steps, clamping to the item's range.
    pub fn adjust(&mut self, idx: usize, delta: i16)
        requires
            idx < NUM_SETTINGS_ITEMS,
            i16::MIN <= old(self).display_value(idx as int) + delta <= i16::MAX,
        ensures
            final(self).display_value(idx as int) == clamp_spec(
                old(self).display_value(idx as int) + delta,
                item_min(idx as int) as int,
                item_max(idx as int) as int,
            ),
            forall|j: int| j != idx ==> final(self).display_value(j) == old(self).display_value(j),
            final(self).vibrato_enabled == old(self).vibrato_enabled,
    {
        let current = self.get(idx);
        self.set(idx, current + delta);
    }
}

} // verus!
