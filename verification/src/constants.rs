use vstd::prelude::*;

verus! {

/// Number of hall-effect switches on the board.
pub const NUM_SWITCHES: usize = 100;
/// Number of analog multiplexers that carry switches (AM1–AM13).
pub const NUM_MUXES: usize = 13;
/// Number of multiplexers with a dedicated ADC pin (AM1–AM9).
pub const NUM_ADC_PINS: usize = 9;
/// Channels per multiplexer.
pub const MUX_CHANNELS: usize = 8;

// ── Thresholds ───────────────────────────────────────────────────────────────
pub const FIRST_DELTA: u16 = 150;
pub const SECOND_DELTA: u16 = 250;
pub const RELEASE_DELTA: u16 = 100;
pub const DEBOUNCE_TICKS: u8 = 3;

pub const FILTER_SIZE: usize = 4;
pub const FILTER_SHIFT: u32 = 2;

pub const VELOCITY_WINDOW_MS: u32 = 80;
pub const CALIBRATION_SAMPLES: usize = 64;

// ── Settings buttons ─────────────────────────────────────────────────────────
/// HE73 selects melody MIDI channel 1.
pub const SETTINGS_CHAN1: usize = 72;
/// HE76 selects melody MIDI channel 2.
pub const SETTINGS_CHAN2: usize = 75;

// ── Drum pads (switches 81–100, MIDI channel 10) ─────────────────────────────
/// 0-indexed MIDI channel of the drum pads.
pub const DRUM_CHANNEL: u8 = 9;
pub const DRUM_SWITCH_START: usize = 80;
pub const NUM_DRUM_PADS: usize = 20;
/// General MIDI percussion notes, Bass Drum → Splash Cymbal.
pub const DRUM_NOTE: [u8; NUM_DRUM_PADS] = [
    36, 37, 38, 39, 40, 41, 42, 43, 44, 45,
    46, 47, 48, 49, 50, 51, 52, 53, 54, 55,
];

// ── Pitch bend (left/right arrow keys) ───────────────────────────────────────
/// HE78 bends the pitch down.
pub const PITCH_BEND_DOWN: usize = 77;
/// HE80 bends the pitch up.
pub const PITCH_BEND_UP: usize = 79;
pub const PITCH_BEND_MAX_DELTA: u16 = 400;
pub const PITCH_BEND_HYSTERESIS: u16 = 32;
pub const PITCH_BEND_INTERVAL_MS: u32 = 5;
/// 14-bit pitch-bend value of the wheel at rest.
pub const PITCH_BEND_CENTER: u16 = 0x2000;

// ── Vibrato (up/down arrow keys) → CC1 ───────────────────────────────────────
/// HE77 sets the vibrato depth.
pub const VIBRATO_A: usize = 76;
/// HE79 sets the vibrato depth.
pub const VIBRATO_B: usize = 78;
pub const VIBRATO_MAX_DELTA: u16 = 300;
/// Noise floor below which the vibrato output is 0.
pub const VIBRATO_DEAD_ZONE: u16 = 30;
pub const VIBRATO_HYSTERESIS: u8 = 2;
pub const VIBRATO_INTERVAL_MS: u32 = 10;
/// Controller number of the modulation wheel.
pub const VIBRATO_CC: u8 = 1;

// ── Potentiometers ───────────────────────────────────────────────────────────
pub const NUM_POTS: usize = 12;
pub const POT_SCAN_MS: u32 = 10;
pub const POT_CC_HYSTERESIS: u8 = 2;
/// Full-scale reading of the 12-bit ADC.
pub const POT_ADC_MAX: u32 = 4095;
/// (decoder index, mux channel, CC number) per potentiometer.
/// Decoder index 4 = AM14, 5 = AM15, both read through A11.
pub const POT_MAP: [(u8, u8, u8); NUM_POTS] = [
    (4, 4, 20), (4, 6, 21), (4, 7, 22), (4, 5, 23),
    (4, 2, 24), (4, 1, 25), (4, 0, 26), (4, 3, 27),
    (5, 4, 28), (5, 6, 29), (5, 7, 30), (5, 5, 31),
];

// ── Switch map: (mux index, channel) per switch index ───────────────────────
/// mux index: 0 = AM1 … 8 = AM9 (A0–A8), 9–12 = AM10–AM13 through the U1 decoder.
pub const SWITCH_MAP: [(u8, u8); NUM_SWITCHES] = [
    (0, 4), (0, 6), (0, 7), (0, 5), (0, 2), (0, 1), (0, 0), (0, 3),
    (1, 4), (1, 6), (1, 7), (1, 5), (1, 2), (1, 1),
    (2, 4), (2, 6), (2, 7), (2, 5), (2, 2), (2, 1), (2, 0), (2, 3),
    (3, 4), (3, 6), (3, 7), (3, 5), (3, 2),
    (1, 3), (1, 0),
    (4, 4), (4, 6), (4, 7), (4, 5), (4, 2), (4, 1), (4, 0), (4, 3),
    (5, 4), (5, 6), (5, 7),
    (3, 1), (3, 0), (3, 3),
    (6, 4), (6, 6), (6, 7), (6, 5), (6, 2), (6, 1), (6, 0), (6, 3),
    (7, 4), (7, 6),
    (5, 5), (5, 2), (5, 1), (5, 0), (5, 3),
    (8, 4), (8, 6), (8, 7), (8, 5), (8, 2), (8, 1), (8, 0), (8, 3),
    (7, 7), (7, 5), (7, 2), (7, 1),
    (9, 4), (9, 6), (9, 7),
    (10, 4), (10, 6), (10, 7), (10, 5), (10, 2), (10, 1), (10, 0),
    (9, 5), (9, 2), (9, 1), (9, 0),
    (11, 4), (11, 6), (11, 7), (11, 5), (11, 2), (11, 1), (11, 0), (11, 3),
    (12, 4), (12, 6), (12, 7), (12, 5), (12, 2), (12, 1), (12, 0), (12, 3),
];

// ── Wicki-Hayden MIDI note layout ────────────────────────────────────────────
/// Rows alternate between two whole-tone scales a perfect fourth apart.
/// Switches from HE72 on carry no melody note (0).
pub const SWITCH_TO_NOTE: [u8; NUM_SWITCHES] = [
    78, 80, 82, 84, 86, 88, 90, 92, 94, 96, 98, 100, 102, 104,
    71, 73, 75, 77, 79, 81, 83, 85, 87, 89, 91, 93, 95, 97, 99,
    66, 68, 70, 72, 74, 76, 78, 80, 82, 84, 86, 88, 90, 92,
    59, 61, 63, 65, 67, 69, 71, 73, 75, 77, 79, 81, 83, 85, 87,
    54, 58, 60, 62, 64, 66, 68, 70, 72, 74, 76,
    80,
    0, 0, 0, 0, 0, 0, 0, 0, 0, 0, 0, 0, 0, 0, 0, 0, 0, 0, 0, 0, 0, 0, 0, 0, 0, 0, 0, 0,
    0, 0,
];

/// Every switch is wired to an existing multiplexer channel.
pub proof fn lemma_switch_map_in_range()
    ensures
        forall|i: int|
            0 <= i < NUM_SWITCHES ==> (#[trigger] SWITCH_MAP@[i]).0 < NUM_MUXES
                && SWITCH_MAP@[i].1 < MUX_CHANNELS,
{
}

} // verus!
