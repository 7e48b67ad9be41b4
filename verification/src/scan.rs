//! The 1 kHz scan: filtering every switch, running the state machines, turning the arrow
//! keys and potentiometers into controller values, and driving the status LEDs.
use vstd::prelude::*;

use crate::constants::{
    MUX_CHANNELS, NUM_MUXES, NUM_SWITCHES, PITCH_BEND_CENTER, PITCH_BEND_DOWN,
    PITCH_BEND_MAX_DELTA, PITCH_BEND_UP, POT_ADC_MAX, RELEASE_DELTA, SWITCH_MAP, VIBRATO_A,
    VIBRATO_B, VIBRATO_CC, VIBRATO_DEAD_ZONE, VIBRATO_MAX_DELTA, VIBRATO_HYSTERESIS, VIBRATO_INTERVAL_MS, NUM_POTS,
    PITCH_BEND_HYSTERESIS, PITCH_BEND_INTERVAL_MS, POT_CC_HYSTERESIS, POT_MAP, POT_SCAN_MS,
};
use crate::queue::{
    enqueue_event, indices_in_range, new_pending, pending_into_vec, pending_items, push_pending, queue_items,
    EventQueue, IndexedEvent, EVENT_QUEUE_CAPACITY, PENDING_CAPACITY,
};
use crate::switch::{
    abs_diff_u16, abs_diff_spec, switch_step, window_average, ChannelFilter, SwitchEvent, SwitchState,
};

verus! {

/// Ticks an LED stays lit after activity.
pub const LED_FLASH_MS: u32 = 50;
/// Period of the heartbeat LED.
pub const HEARTBEAT_PERIOD_MS: u32 = 1000;
/// Part of the heartbeat period during which the LED is lit.
pub const HEARTBEAT_ON_MS: u32 = 500;

/// Downward bend for an arrow-key deflection of `delta`: 0 at rest, 0x2000 at full travel.
pub open spec fn bend_down(delta: u16) -> int {
    (if delta < PITCH_BEND_MAX_DELTA {
        delta as int
    } else {
        PITCH_BEND_MAX_DELTA as int
    }) * 0x2000 / (PITCH_BEND_MAX_DELTA as int)
}

/// Upward bend for an arrow-key deflection of `delta`: 0 at rest, 0x1FFF at full travel.
pub open spec fn bend_up(delta: u16) -> int {
    (if delta < PITCH_BEND_MAX_DELTA {
        delta as int
    } else {
        PITCH_BEND_MAX_DELTA as int
    }) * 0x1FFF / (PITCH_BEND_MAX_DELTA as int)
}

/// The 14-bit pitch-bend value for the deflections of the down and up arrow keys: the
/// center while both keys are released, else the center moved by both bends.
pub open spec fn pitch_bend_spec(delta_down: u16, delta_up: u16) -> u16 {
    if delta_down < RELEASE_DELTA && delta_up < RELEASE_DELTA {
        PITCH_BEND_CENTER
    } else {
        (PITCH_BEND_CENTER - bend_down(delta_down) + bend_up(delta_up)) as u16
    }
}

proof fn lemma_bend_bounds(delta: u16)
    ensures
        0 <= bend_down(delta) <= 0x2000,
        0 <= bend_up(delta) <= 0x1FFF,
{
    let d: int = if delta < 400 {
        delta as int
    } else {
        400
    };
    assert(0 <= d * 0x2000 / 400 <= 0x2000) by (nonlinear_arith)
        requires
            0 <= d <= 400,
    ;
    assert(0 <= d * 0x1FFF / 400 <= 0x1FFF) by (nonlinear_arith)
        requires
            0 <= d <= 400,
    ;
}

/// The pitch-bend value for the two arrow-key deflections.
pub fn pitch_bend_value(delta_down: u16, delta_up: u16) -> (v: u16)
    ensures
        v == pitch_bend_spec(delta_down, delta_up),
{
    proof {
        lemma_bend_bounds(delta_down);
        lemma_bend_bounds(delta_up);
    }
    if delta_down < RELEASE_DELTA && delta_up < RELEASE_DELTA {
        PITCH_BEND_CENTER
    } else {
        let dd = if delta_down < PITCH_BEND_MAX_DELTA {
            delta_down
        } else {
            PITCH_BEND_MAX_DELTA
        };
        let du = if delta_up < PITCH_BEND_MAX_DELTA {
            delta_up
        } else {
            PITCH_BEND_MAX_DELTA
        };
        let bend_down = (dd as u32 * 0x2000 / PITCH_BEND_MAX_DELTA as u32) as u16;
        let bend_up = (du as u32 * 0x1FFF / PITCH_BEND_MAX_DELTA as u32) as u16;
        let v = PITCH_BEND_CENTER.saturating_sub(bend_down).saturating_add(bend_up);
        if v > 0x3FFF {
            0x3FFF
        } else {
            v
        }
    }
}

/// Every pitch-bend value fits in 14 bits; it is the center while both arrow keys are
/// released, never above the center while the up key is at rest, and never below it while
/// the down key is at rest.
pub proof fn lemma_pitch_bend_range(delta_down: u16, delta_up: u16)
    ensures
        pitch_bend_spec(delta_down, delta_up) <= 0x3FFF,
        delta_down < RELEASE_DELTA && delta_up < RELEASE_DELTA ==> pitch_bend_spec(
            delta_down,
            delta_up,
        ) == PITCH_BEND_CENTER,
        delta_up == 0 ==> pitch_bend_spec(delta_down, delta_up) <= PITCH_BEND_CENTER,
        delta_down == 0 ==> pitch_bend_spec(delta_down, delta_up) >= PITCH_BEND_CENTER,
{
    lemma_bend_bounds(delta_down);
    lemma_bend_bounds(delta_up);
}

/// The modulation value (0–127) for the deflections of the two vibrato keys: the larger
/// deflection, less the dead zone, scaled so that `VIBRATO_MAX_DELTA` gives 127.
pub open spec fn vibrato_spec(delta_a: u16, delta_b: u16) -> u8 {
    let m: int = if delta_a >= delta_b {
        delta_a as int
    } else {
        delta_b as int
    };
    let over: int = if m > VIBRATO_DEAD_ZONE {
        m - VIBRATO_DEAD_ZONE
    } else {
        0
    };
    let capped: int = if over < VIBRATO_MAX_DELTA {
        over
    } else {
        VIBRATO_MAX_DELTA as int
    };
    (capped * 127 / (VIBRATO_MAX_DELTA as int)) as u8
}

/// The modulation value for the two vibrato-key deflections.
pub fn vibrato_value(delta_a: u16, delta_b: u16) -> (v: u8)
    ensures
        v == vibrato_spec(delta_a, delta_b),
        v <= 127,
{
    let m = if delta_a >= delta_b {
        delta_a
    } else {
        delta_b
    };
    let over = m.saturating_sub(VIBRATO_DEAD_ZONE);
    let capped = if over < VIBRATO_MAX_DELTA {
        over
    } else {
        VIBRATO_MAX_DELTA
    };
    assert(capped as u32 * 127 / 300 <= 127) by (nonlinear_arith)
        requires
            capped <= 300,
    ;
    let v = (capped as u32 * 127 / VIBRATO_MAX_DELTA as u32) as u8;
    if v > 127 {
        127
    } else {
        v
    }
}

/// The controller value (0–127) of a potentiometer reading; the pots are wired so that a
/// full-scale reading gives 0.
pub open spec fn pot_spec(raw: u32) -> u8 {
    let rest: int = if raw < POT_ADC_MAX {
        POT_ADC_MAX - raw
    } else {
        0
    };
    (rest * 127 / (POT_ADC_MAX as int)) as u8
}

/// The controller value of a potentiometer reading.
pub fn pot_value(raw: u32) -> (v: u8)
    ensures
        v == pot_spec(raw),
        v <= 127,
{
    let rest = POT_ADC_MAX.saturating_sub(raw);
    assert(rest * 127 / 4095 <= 127) by (nonlinear_arith)
        requires
            rest <= 4095,
    ;
    let v = rest * 127 / POT_ADC_MAX;
    if v > 127 {
        127u8
    } else {
        v as u8
    }
}

/// `x - y` modulo 2³².
pub open spec fn wrapping_sub_spec(x: u32, y: u32) -> u32 {
    if x >= y {
        (x - y) as u32
    } else {
        (x - y + 0x1_0000_0000) as u32
    }
}

/// `x + y` modulo 2³².
pub open spec fn wrapping_add_spec(x: u32, y: u32) -> u32 {
    if x + y <= u32::MAX {
        (x + y) as u32
    } else {
        (x + y - 0x1_0000_0000) as u32
    }
}

/// An activity LED is lit while `now` lies before `off_at` on the wrapping tick counter.
pub open spec fn led_lit_spec(now: u32, off_at: u32) -> bool {
    wrapping_sub_spec(now, off_at) > 0x8000_0000
}

/// Whether an activity LED that goes dark at `off_at` is lit at `now`.
pub fn led_lit(now: u32, off_at: u32) -> (lit: bool)
    ensures
        lit == led_lit_spec(now, off_at),
{
    now.wrapping_sub(off_at) > 0x8000_0000u32
}

/// After activity at tick `t`, an activity LED is lit for the next `LED_FLASH_MS` ticks and
/// then dark (until about 2³¹ ticks later), whatever the wrap of the tick counter.
pub proof fn lemma_led_flash(t: u32, d: u32)
    ensures
        d < LED_FLASH_MS ==> led_lit_spec(
            wrapping_add_spec(t, d),
            wrapping_add_spec(t, LED_FLASH_MS),
        ),
        LED_FLASH_MS <= d <= 0x8000_0000 + LED_FLASH_MS ==> !led_lit_spec(
            wrapping_add_spec(t, d),
            wrapping_add_spec(t, LED_FLASH_MS),
        ),
{
}

/// The heartbeat LED is lit during the first half of every second.
pub open spec fn heartbeat_spec(now: u32) -> bool {
    now % HEARTBEAT_PERIOD_MS < HEARTBEAT_ON_MS
}

/// Raw readings of every multiplexer channel, indexed by mux then channel.
pub type MuxRaw = [[u16; MUX_CHANNELS]; NUM_MUXES];

/// The raw reading of switch `idx`.
pub open spec fn raw_reading(raw: MuxRaw, idx: int) -> u16 {
    raw@[SWITCH_MAP@[idx].0 as int]@[SWITCH_MAP@[idx].1 as int]
}

/// The arrow keys feed pitch bend and vibrato instead of playing notes.
pub open spec fn is_control_switch(idx: int) -> bool {
    idx == PITCH_BEND_DOWN || idx == PITCH_BEND_UP || idx == VIBRATO_A || idx == VIBRATO_B
}

/// The output of filter `f` once it is fed `r`.
pub open spec fn fed_output(f: ChannelFilter, r: u16) -> u16 {
    window_average(f.window().drop_first().push(r)) as u16
}

/// The event switch `s` raises when its filter `f` is fed `r`.
pub open spec fn switch_scan_event(
    f: ChannelFilter,
    s: SwitchState,
    baseline: u16,
    r: u16,
    now: u32,
) -> Option<SwitchEvent> {
    switch_step(s.phase_spec(), s.count_spec(), abs_diff_spec(fed_output(f, r), baseline), now).2
}

/// Whether switch `idx` takes part in the scan.
pub open spec fn scanned(disabled: Seq<usize>, idx: int) -> bool {
    !disabled.contains(idx as usize)
}

/// The events raised by switches `0..n`, in switch order.
pub open spec fn scan_events(
    filters: Seq<ChannelFilter>,
    states: Seq<SwitchState>,
    baselines: Seq<u16>,
    raw: MuxRaw,
    now: u32,
    disabled: Seq<usize>,
    n: int,
) -> Seq<IndexedEvent>
    decreases n,
{
    if n <= 0 {
        Seq::empty()
    } else {
        let prev = scan_events(filters, states, baselines, raw, now, disabled, n - 1);
        let i = n - 1;
        if !scanned(disabled, i) || is_control_switch(i) {
            prev
        } else {
            match switch_scan_event(filters[i], states[i], baselines[i], raw_reading(raw, i), now) {
                Some(e) => prev.push((i as usize, e)),
                None => prev,
            }
        }
    }
}

/// The filtered readings of the four arrow keys after a scan.
#[derive(Clone, Copy, Debug, PartialEq, Eq)]
pub struct ControlReadings {
    pub pitch_down: u16,
    pub pitch_up: u16,
    pub vibrato_a: u16,
    pub vibrato_b: u16,
}

/// The filtered reading of arrow key `idx` after a scan; its baseline while it is left out.
pub open spec fn control_reading(
    filters: Seq<ChannelFilter>,
    baselines: Seq<u16>,
    raw: MuxRaw,
    disabled: Seq<usize>,
    idx: int,
) -> u16 {
    if scanned(disabled, idx) {
        fed_output(filters[idx], raw_reading(raw, idx))
    } else {
        baselines[idx]
    }
}

/// What a scan does to the filter and the state machine of switch `i`.
pub open spec fn switch_scanned(
    old_f: ChannelFilter,
    old_s: SwitchState,
    f: ChannelFilter,
    s: SwitchState,
    baseline: u16,
    r: u16,
    now: u32,
    scanned: bool,
    control: bool,
) -> bool {
    if !scanned {
        f == old_f && s == old_s
    } else {
        &&& f.window() == old_f.window().drop_first().push(r)
        &&& if control {
            s == old_s
        } else {
            let (p, c, _) = switch_step(
                old_s.phase_spec(),
                old_s.count_spec(),
                abs_diff_spec(fed_output(old_f, r), baseline),
                now,
            );
            &&& s.phase_spec() == p
            &&& s.count_spec() == c
            &&& s.last_adc_spec() == fed_output(old_f, r)
        }
    }
}

fn is_disabled(disabled: &[usize], idx: usize) -> (d: bool)
    ensures
        d == disabled@.contains(idx),
{
    let mut i: usize = 0;
    while i < disabled.len()
        invariant
            i <= disabled@.len(),
            forall|j: int| 0 <= j < i ==> disabled@[j] != idx,
        decreases disabled@.len() - i,
    {
        if disabled[i] == idx {
            return true;
        }
        i += 1;
    }
    false
}

/// Feeds every scanned switch's filter with its raw reading and runs its state machine,
/// collecting the events in switch order; the arrow keys only have their filters fed.
pub fn scan_switches(
    filters: &mut [ChannelFilter; NUM_SWITCHES],
    states: &mut [SwitchState; NUM_SWITCHES],
    baselines: &[u16; NUM_SWITCHES],
    raw: &MuxRaw,
    now: u32,
    disabled: &[usize],
) -> (r: (Vec<IndexedEvent>, ControlReadings))
    ensures
        r.0@ == scan_events(old(filters)@, old(states)@, baselines@, *raw, now, disabled@, 100),
        forall|i: int|
            0 <= i < NUM_SWITCHES ==> switch_scanned(
                #[trigger] old(filters)@[i],
                old(states)@[i],
                final(filters)@[i],
                final(states)@[i],
                baselines@[i],
                raw_reading(*raw, i),
                now,
                scanned(disabled@, i),
                is_control_switch(i),
            ),
        r.1.pitch_down == control_reading(
            old(filters)@,
            baselines@,
            *raw,
            disabled@,
            PITCH_BEND_DOWN as int,
        ),
        r.1.pitch_up == control_reading(
            old(filters)@,
            baselines@,
            *raw,
            disabled@,
            PITCH_BEND_UP as int,
        ),
        r.1.vibrato_a == control_reading(
            old(filters)@,
            baselines@,
            *raw,
            disabled@,
            VIBRATO_A as int,
        ),
        r.1.vibrato_b == control_reading(
            old(filters)@,
            baselines@,
            *raw,
            disabled@,
            VIBRATO_B as int,
        ),
{
    let ghost f0 = filters@;
    let ghost s0 = states@;
    let mut events: Vec<IndexedEvent> = Vec::new();
    let mut readings = ControlReadings {
        pitch_down: baselines[PITCH_BEND_DOWN],
        pitch_up: baselines[PITCH_BEND_UP],
        vibrato_a: baselines[VIBRATO_A],
        vibrato_b: baselines[VIBRATO_B],
    };
    let mut switch_idx: usize = 0;
    while switch_idx < NUM_SWITCHES
        invariant
            switch_idx <= NUM_SWITCHES,
            events@ == scan_events(f0, s0, baselines@, *raw, now, disabled@, switch_idx as int),
            forall|i: int|
                0 <= i < switch_idx ==> switch_scanned(
                    #[trigger] f0[i],
                    s0[i],
                    filters@[i],
                    states@[i],
                    baselines@[i],
                    raw_reading(*raw, i),
                    now,
                    scanned(disabled@, i),
                    is_control_switch(i),
                ),
            forall|i: int| switch_idx <= i < NUM_SWITCHES ==> #[trigger] filters@[i] == f0[i],
            forall|i: int| switch_idx <= i < NUM_SWITCHES ==> #[trigger] states@[i] == s0[i],
            readings.pitch_down == if PITCH_BEND_DOWN < switch_idx {
                control_reading(f0, baselines@, *raw, disabled@, PITCH_BEND_DOWN as int)
            } else {
                baselines@[PITCH_BEND_DOWN as int]
            },
            readings.pitch_up == if PITCH_BEND_UP < switch_idx {
                control_reading(f0, baselines@, *raw, disabled@, PITCH_BEND_UP as int)
            } else {
                baselines@[PITCH_BEND_UP as int]
            },
            readings.vibrato_a == if VIBRATO_A < switch_idx {
                control_reading(f0, baselines@, *raw, disabled@, VIBRATO_A as int)
            } else {
                baselines@[VIBRATO_A as int]
            },
            readings.vibrato_b == if VIBRATO_B < switch_idx {
                control_reading(f0, baselines@, *raw, disabled@, VIBRATO_B as int)
            } else {
                baselines@[VIBRATO_B as int]
            },
        decreases NUM_SWITCHES - switch_idx,
    {
        let i = switch_idx;
        proof {
            crate::constants::lemma_switch_map_in_range();
        }
        if !is_disabled(disabled, i) {
            let (mux, ch) = SWITCH_MAP[i];
            let raw_value = raw[mux as usize][ch as usize];
            assert(raw_value == raw_reading(*raw, i as int));
            let mut filter = filters[i];
            let filtered = filter.feed(raw_value);
            filters[i] = filter;
            if i == PITCH_BEND_DOWN {
                readings.pitch_down = filtered;
            } else if i == PITCH_BEND_UP {
                readings.pitch_up = filtered;
            } else if i == VIBRATO_A {
                readings.vibrato_a = filtered;
            } else if i == VIBRATO_B {
                readings.vibrato_b = filtered;
            } else {
                let mut state = states[i];
                let event = state.update(filtered, baselines[i], now, i);
                states[i] = state;
                if let Some(e) = event {
                    events.push((i, e));
                }
            }
        }
        switch_idx += 1;
    }
    (events, readings)
}

/// `|a - b|` for two controller values.
pub open spec fn abs_diff_u8_spec(a: u8, b: u8) -> int {
    if a >= b {
        a - b
    } else {
        b - a
    }
}

fn abs_diff_u8(a: u8, b: u8) -> (d: u8)
    ensures
        d == abs_diff_u8_spec(a, b),
{
    if a >= b {
        a - b
    } else {
        b - a
    }
}

/// The pitch-bend value a scan at `now` sends, if any: every `PITCH_BEND_INTERVAL_MS`
/// ticks, when the value has moved by at least `PITCH_BEND_HYSTERESIS` from the last one
/// sent.
pub open spec fn pitch_bend_update(now: u32, last: u16, r: ControlReadings, baselines: Seq<u16>) -> Option<
    u16,
> {
    if now % PITCH_BEND_INTERVAL_MS != 0 {
        None
    } else {
        let pb = pitch_bend_spec(
            abs_diff_spec(r.pitch_down, baselines[PITCH_BEND_DOWN as int]),
            abs_diff_spec(r.pitch_up, baselines[PITCH_BEND_UP as int]),
        );
        if abs_diff_spec(pb, last) >= PITCH_BEND_HYSTERESIS {
            Some(pb)
        } else {
            None
        }
    }
}

/// The modulation value a scan at `now` sends, if any: every `VIBRATO_INTERVAL_MS` ticks,
/// when the value has moved by at least `VIBRATO_HYSTERESIS` from the last one sent.
pub open spec fn vibrato_update(now: u32, last: u8, r: ControlReadings, baselines: Seq<u16>) -> Option<u8> {
    if now % VIBRATO_INTERVAL_MS != 0 {
        None
    } else {
        let cc = vibrato_spec(
            abs_diff_spec(r.vibrato_a, baselines[VIBRATO_A as int]),
            abs_diff_spec(r.vibrato_b, baselines[VIBRATO_B as int]),
        );
        if abs_diff_u8_spec(cc, last) >= VIBRATO_HYSTERESIS {
            Some(cc)
        } else {
            None
        }
    }
}

/// `|a - b|`, written out.
pub open spec fn distance(a: int, b: int) -> int {
    if a >= b {
        a - b
    } else {
        b - a
    }
}

/// On a tick where pitch bend is due, a value is sent exactly when it differs by at least
/// `PITCH_BEND_HYSTERESIS` from the last value sent, and what is sent is the value for the
/// two keys' deflections from their own baselines; nothing is sent on other ticks. So an
/// unchanged bend is never re-sent, and releasing both keys after a bend sends the center.
pub proof fn lemma_pitch_bend_sent_on_change(
    now: u32,
    last: u16,
    r: ControlReadings,
    baselines: Seq<u16>,
)
    ensures
        ({
            let down = distance(r.pitch_down as int, baselines[PITCH_BEND_DOWN as int] as int);
            let up = distance(r.pitch_up as int, baselines[PITCH_BEND_UP as int] as int);
            let pb = pitch_bend_spec(down as u16, up as u16);
            &&& now % PITCH_BEND_INTERVAL_MS != 0 ==> pitch_bend_update(now, last, r, baselines)
                is None
            &&& now % PITCH_BEND_INTERVAL_MS == 0 && distance(pb as int, last as int)
                >= PITCH_BEND_HYSTERESIS ==> pitch_bend_update(now, last, r, baselines) == Some(
                pb,
            )
            &&& now % PITCH_BEND_INTERVAL_MS == 0 && distance(pb as int, last as int)
                < PITCH_BEND_HYSTERESIS ==> pitch_bend_update(now, last, r, baselines) is None
            &&& pitch_bend_update(now, last, r, baselines) matches Some(v) ==> distance(
                v as int,
                last as int,
            ) >= PITCH_BEND_HYSTERESIS
            &&& (now % PITCH_BEND_INTERVAL_MS == 0 && r.pitch_down == baselines[PITCH_BEND_DOWN as int]
                && r.pitch_up == baselines[PITCH_BEND_UP as int] && distance(
                last as int,
                PITCH_BEND_CENTER as int,
            ) >= PITCH_BEND_HYSTERESIS) ==> pitch_bend_update(now, last, r, baselines) == Some(
                PITCH_BEND_CENTER,
            )
        }),
{
}

/// The modulation value for deflections `a` and `b`: the larger one, less the dead zone,
/// scaled so that `VIBRATO_MAX_DELTA` past the dead zone gives 127.
pub open spec fn modulation_depth(a: int, b: int) -> int {
    let m = if a >= b {
        a
    } else {
        b
    };
    let over = if m > VIBRATO_DEAD_ZONE {
        m - VIBRATO_DEAD_ZONE
    } else {
        0
    };
    (if over < VIBRATO_MAX_DELTA {
        over
    } else {
        VIBRATO_MAX_DELTA as int
    }) * 127 / (VIBRATO_MAX_DELTA as int)
}

/// The readings and baselines of the two vibrato keys exchanged.
pub open spec fn swap_vibrato_keys(r: ControlReadings, baselines: Seq<u16>) -> (
    ControlReadings,
    Seq<u16>,
) {
    (
        ControlReadings { vibrato_a: r.vibrato_b, vibrato_b: r.vibrato_a, ..r },
        baselines.update(VIBRATO_A as int, baselines[VIBRATO_B as int]).update(
            VIBRATO_B as int,
            baselines[VIBRATO_A as int],
        ),
    )
}

/// On a tick where vibrato is due, the value considered is the larger deflection of the two
/// keys, each from its own baseline, less the dead zone and scaled to 0–127; it is sent
/// exactly when it differs by at least `VIBRATO_HYSTERESIS` from the last value sent.
/// Exchanging the two keys changes nothing.
pub proof fn lemma_vibrato_reads_both_keys(
    now: u32,
    last: u8,
    r: ControlReadings,
    baselines: Seq<u16>,
)
    requires
        baselines.len() == NUM_SWITCHES,
    ensures
        ({
            let a = distance(r.vibrato_a as int, baselines[VIBRATO_A as int] as int);
            let b = distance(r.vibrato_b as int, baselines[VIBRATO_B as int] as int);
            let v = modulation_depth(a, b);
            &&& now % VIBRATO_INTERVAL_MS != 0 ==> vibrato_update(now, last, r, baselines) is None
            &&& now % VIBRATO_INTERVAL_MS == 0 && distance(v, last as int) >= VIBRATO_HYSTERESIS
                ==> vibrato_update(now, last, r, baselines) == Some(v as u8)
            &&& now % VIBRATO_INTERVAL_MS == 0 && distance(v, last as int) < VIBRATO_HYSTERESIS
                ==> vibrato_update(now, last, r, baselines) is None
            &&& 0 <= v <= 127
            &&& vibrato_update(now, last, swap_vibrato_keys(r, baselines).0, swap_vibrato_keys(
                r,
                baselines,
            ).1) == vibrato_update(now, last, r, baselines)
        }),
{
    let a = distance(r.vibrato_a as int, baselines[VIBRATO_A as int] as int);
    let b = distance(r.vibrato_b as int, baselines[VIBRATO_B as int] as int);
    let m = if a >= b {
        a
    } else {
        b
    };
    let over = if m > 30 {
        m - 30
    } else {
        0
    };
    let c = if over < 300 {
        over
    } else {
        300
    };
    assert(0 <= c * 127 / 300 <= 127) by (nonlinear_arith)
        requires
            0 <= c <= 300,
    ;
}

/// The value a potentiometer sends, if it moved by at least `POT_CC_HYSTERESIS`.
pub open spec fn pot_update(raw: u32, last: u8) -> Option<u8> {
    if abs_diff_u8_spec(pot_spec(raw), last) >= POT_CC_HYSTERESIS {
        Some(pot_spec(raw))
    } else {
        None
    }
}

/// A potentiometer reading maps to 127 at 0, falling to 0 at full scale and above, never
/// rising as the reading rises; a pot sends its value exactly when that value differs by at
/// least `POT_CC_HYSTERESIS` from the last value it sent.
pub proof fn lemma_pot_value_and_update(raw: u32, raw2: u32, last: u8)
    ensures
        0 <= pot_spec(raw) <= 127,
        raw == 0 ==> pot_spec(raw) == 127,
        raw >= POT_ADC_MAX ==> pot_spec(raw) == 0,
        raw <= raw2 ==> pot_spec(raw) >= pot_spec(raw2),
        pot_spec(raw) == (if raw < POT_ADC_MAX {
            POT_ADC_MAX - raw
        } else {
            0
        }) * 127 / (POT_ADC_MAX as int),
        distance(pot_spec(raw) as int, last as int) >= POT_CC_HYSTERESIS ==> pot_update(raw, last)
            == Some(pot_spec(raw)),
        distance(pot_spec(raw) as int, last as int) < POT_CC_HYSTERESIS ==> pot_update(
            raw,
            last,
        ) is None,
{
    let r1: int = if raw < 4095 {
        4095 - raw
    } else {
        0
    };
    let r2: int = if raw2 < 4095 {
        4095 - raw2
    } else {
        0
    };
    assert(0 <= r1 * 127 / 4095 <= 127) by (nonlinear_arith)
        requires
            0 <= r1 <= 4095,
    ;
    assert(raw <= raw2 ==> r1 * 127 / 4095 >= r2 * 127 / 4095) by (nonlinear_arith)
        requires
            0 <= r2 <= 4095,
            0 <= r1 <= 4095,
            raw <= raw2 ==> r2 <= r1,
    ;
}

/// Whether a scan at `now` reads the potentiometers.
pub open spec fn pot_scan_due_spec(now: u32) -> bool {
    now % POT_SCAN_MS == 0
}

/// Whether the scan at `now` reads the potentiometers.
pub fn pot_scan_due(now: u32) -> (due: bool)
    ensures
        due == pot_scan_due_spec(now),
{
    now % POT_SCAN_MS == 0
}

/// The controller events of potentiometers `0..n`, in pot order.
pub open spec fn pot_events(pots: Seq<u32>, last: Seq<u8>, n: int) -> Seq<IndexedEvent>
    decreases n,
{
    if n <= 0 {
        Seq::empty()
    } else {
        let prev = pot_events(pots, last, n - 1);
        match pot_update(pots[n - 1], last[n - 1]) {
            Some(v) => prev.push((0usize, SwitchEvent::PotChange { cc: POT_MAP@[n - 1].2, value: v })),
            None => prev,
        }
    }
}

/// The pot readings a scan at `now` acts on.
pub open spec fn pots_read(now: u32, pots: Option<[u32; NUM_POTS]>) -> Option<[u32; NUM_POTS]> {
    if pot_scan_due_spec(now) {
        pots
    } else {
        None
    }
}

/// The controller events of one scan: pitch bend, then vibrato, then the potentiometers.
pub open spec fn control_events(
    now: u32,
    last_pitch_bend: u16,
    last_vibrato_cc: u8,
    pot_last_cc: Seq<u8>,
    r: ControlReadings,
    baselines: Seq<u16>,
    pots: Option<[u32; NUM_POTS]>,
) -> Seq<IndexedEvent> {
    let pb: Seq<IndexedEvent> = match pitch_bend_update(now, last_pitch_bend, r, baselines) {
        Some(v) => seq![(0usize, SwitchEvent::PitchBend { value: v })],
        None => Seq::empty(),
    };
    let vib: Seq<IndexedEvent> = match vibrato_update(now, last_vibrato_cc, r, baselines) {
        Some(v) => seq![(0usize, SwitchEvent::PotChange { cc: VIBRATO_CC, value: v })],
        None => Seq::empty(),
    };
    let pot: Seq<IndexedEvent> = match pots_read(now, pots) {
        Some(p) => pot_events(p@, pot_last_cc, NUM_POTS as int),
        None => Seq::empty(),
    };
    pb + vib + pot
}

/// What the scan keeps between ticks.
pub struct ScanState {
    pub filters: [ChannelFilter; NUM_SWITCHES],
    pub last_pitch_bend: u16,
    pub last_vibrato_cc: u8,
    pub pot_last_cc: [u8; NUM_POTS],
    pub led1_off_at: u32,
    pub led2_off_at: u32,
}

impl ScanState {
    /// Scan state for freshly primed filters: bend at its center, no controller value sent.
    pub fn new(filters: [ChannelFilter; NUM_SWITCHES]) -> (s: Self)
        ensures
            s.filters == filters,
            s.last_pitch_bend == PITCH_BEND_CENTER,
            s.last_vibrato_cc == 0,
            forall|i: int| 0 <= i < NUM_POTS ==> #[trigger] s.pot_last_cc@[i] == 255,
            s.led1_off_at == 0,
            s.led2_off_at == 0,
    {
        ScanState {
            filters,
            last_pitch_bend: PITCH_BEND_CENTER,
            last_vibrato_cc: 0,
            pot_last_cc: [255, 255, 255, 255, 255, 255, 255, 255, 255, 255, 255, 255],
            led1_off_at: 0,
            led2_off_at: 0,
        }
    }
}

/// Sends pitch bend, vibrato and potentiometer values that are due and have moved enough,
/// remembering what was sent.
pub fn scan_controls(
    state: &mut ScanState,
    now: u32,
    readings: ControlReadings,
    baselines: &[u16; NUM_SWITCHES],
    pots: &Option<[u32; NUM_POTS]>,
) -> (events: Vec<IndexedEvent>)
    ensures
        events@ == control_events(
            now,
            old(state).last_pitch_bend,
            old(state).last_vibrato_cc,
            old(state).pot_last_cc@,
            readings,
            baselines@,
            *pots,
        ),
        final(state).last_pitch_bend == match pitch_bend_update(
            now,
            old(state).last_pitch_bend,
            readings,
            baselines@,
        ) {
            Some(v) => v,
            None => old(state).last_pitch_bend,
        },
        final(state).last_vibrato_cc == match vibrato_update(
            now,
            old(state).last_vibrato_cc,
            readings,
            baselines@,
        ) {
            Some(v) => v,
            None => old(state).last_vibrato_cc,
        },
        forall|i: int|
            0 <= i < NUM_POTS ==> #[trigger] final(state).pot_last_cc@[i] == match pots_read(
                now,
                *pots,
            ) {
                Some(p) => match pot_update(p@[i], old(state).pot_last_cc@[i]) {
                    Some(v) => v,
                    None => old(state).pot_last_cc@[i],
                },
                None => old(state).pot_last_cc@[i],
            },
        final(state).filters == old(state).filters,
        final(state).led1_off_at == old(state).led1_off_at,
        final(state).led2_off_at == old(state).led2_off_at,
{
    let mut events: Vec<IndexedEvent> = Vec::new();

    // Pitch bend (rate-limited).
    if now % PITCH_BEND_INTERVAL_MS == 0 {
        let delta_down = abs_diff_u16(readings.pitch_down, baselines[PITCH_BEND_DOWN]);
        let delta_up = abs_diff_u16(readings.pitch_up, baselines[PITCH_BEND_UP]);
        let pb_value = pitch_bend_value(delta_down, delta_up);
        if abs_diff_u16(pb_value, state.last_pitch_bend) >= PITCH_BEND_HYSTERESIS {
            state.last_pitch_bend = pb_value;
            events.push((0, SwitchEvent::PitchBend { value: pb_value }));
        }
    }
    let ghost after_pb = events@;

    // Vibrato → CC1 (dead zone, rate-limited).
    if now % VIBRATO_INTERVAL_MS == 0 {
        let delta_a = abs_diff_u16(readings.vibrato_a, baselines[VIBRATO_A]);
        let delta_b = abs_diff_u16(readings.vibrato_b, baselines[VIBRATO_B]);
        let cc_val = vibrato_value(delta_a, delta_b);
        if abs_diff_u8(cc_val, state.last_vibrato_cc) >= VIBRATO_HYSTERESIS {
            state.last_vibrato_cc = cc_val;
            events.push((0, SwitchEvent::PotChange { cc: VIBRATO_CC, value: cc_val }));
        }
    }
    let ghost after_vib = events@;
    let ghost last0 = state.pot_last_cc@;
    let ghost pb_after = state.last_pitch_bend;
    let ghost vib_after = state.last_vibrato_cc;

    // Potentiometers (100 Hz).
    if now % POT_SCAN_MS == 0 {
        if let Some(raw_pots) = pots {
            let mut pot_idx: usize = 0;
            while pot_idx < NUM_POTS
                invariant
                    pot_idx <= NUM_POTS,
                    events@ == after_vib + pot_events(raw_pots@, last0, pot_idx as int),
                    forall|i: int|
                        0 <= i < pot_idx ==> #[trigger] state.pot_last_cc@[i] == match pot_update(
                            raw_pots@[i],
                            last0[i],
                        ) {
                            Some(v) => v,
                            None => last0[i],
                        },
                    forall|i: int| pot_idx <= i < NUM_POTS ==> #[trigger] state.pot_last_cc@[i] == last0[i],
                    state.filters == old(state).filters,
                    state.led1_off_at == old(state).led1_off_at,
                    state.led2_off_at == old(state).led2_off_at,
                    state.last_pitch_bend == pb_after,
                    state.last_vibrato_cc == vib_after,
                decreases NUM_POTS - pot_idx,
            {
                let (_dec_idx, _mux_ch, cc) = POT_MAP[pot_idx];
                let cc_val = pot_value(raw_pots[pot_idx]);
                if abs_diff_u8(cc_val, state.pot_last_cc[pot_idx]) >= POT_CC_HYSTERESIS {
                    state.pot_last_cc[pot_idx] = cc_val;
                    events.push((0, SwitchEvent::PotChange { cc, value: cc_val }));
                }
                pot_idx += 1;
            }
        }
    }
    events
}

/// Every event of a switch scan names the switch that raised it.
pub proof fn lemma_scan_event_indices(
    filters: Seq<ChannelFilter>,
    states: Seq<SwitchState>,
    baselines: Seq<u16>,
    raw: MuxRaw,
    now: u32,
    disabled: Seq<usize>,
    n: int,
)
    requires
        0 <= n <= NUM_SWITCHES,
    ensures
        forall|i: int|
            0 <= i < scan_events(filters, states, baselines, raw, now, disabled, n).len() ==> (
            #[trigger] scan_events(filters, states, baselines, raw, now, disabled, n)[i]).0 < n,
    decreases n,
{
    if n > 0 {
        lemma_scan_event_indices(filters, states, baselines, raw, now, disabled, n - 1);
        let prev = scan_events(filters, states, baselines, raw, now, disabled, n - 1);
        let cur = scan_events(filters, states, baselines, raw, now, disabled, n);
        assert forall|i: int| 0 <= i < cur.len() implies (#[trigger] cur[i]).0 < n by {
            if i < prev.len() {
                assert(cur[i] == prev[i]);
            }
        }
    }
}

/// Controller events are queued under switch index 0.
pub proof fn lemma_pot_event_indices(pots: Seq<u32>, last: Seq<u8>, n: int)
    ensures
        forall|i: int|
            0 <= i < pot_events(pots, last, n).len() ==> (#[trigger] pot_events(pots, last, n)[i]).0
                == 0,
    decreases n,
{
    if n > 0 {
        lemma_pot_event_indices(pots, last, n - 1);
        let prev = pot_events(pots, last, n - 1);
        let cur = pot_events(pots, last, n);
        assert forall|i: int| 0 <= i < cur.len() implies (#[trigger] cur[i]).0 == 0 by {
            if i < prev.len() {
                assert(cur[i] == prev[i]);
            }
        }
    }
}

/// `s`, cut to its first `cap` items.
pub open spec fn capped(s: Seq<IndexedEvent>, cap: int) -> Seq<IndexedEvent> {
    if s.len() <= cap {
        s
    } else {
        s.take(cap)
    }
}

/// Free places in a queue that holds `len` items.
pub open spec fn free_room(len: nat) -> int {
    if len >= EVENT_QUEUE_CAPACITY {
        0
    } else {
        EVENT_QUEUE_CAPACITY - len
    }
}

/// Levels of the three status LEDs; `true` drives the (active-low) pin low and lights it.
#[derive(Clone, Copy, Debug, PartialEq, Eq)]
pub struct LedLevels {
    /// Flashes after MIDI output.
    pub tx_on: bool,
    /// Flashes after MIDI input.
    pub rx_on: bool,
    /// Heartbeat.
    pub heartbeat_on: bool,
}

/// What the scheduler does after a scan.
#[derive(Clone, Copy, Debug, PartialEq, Eq)]
pub struct ScanOutcome {
    pub leds: LedLevels,
    /// Events were queued: run the MIDI task.
    pub spawn_events: bool,
}

/// One tick of the 1 kHz scan. Advances the tick counter, scans every switch from `raw`,
/// adds the controller values that are due (`pots` holds the potentiometer readings on
/// ticks where `pot_scan_due` holds), queues up to `PENDING_CAPACITY` events in order as far
/// as the queue has room, and sets the LEDs from `tx_fired` (MIDI was sent since the last
/// tick) and `rx_activity` (MIDI bytes arrived during this tick).
pub fn scan_step(
    tick_ms: &mut u32,
    state: &mut ScanState,
    switches: &mut [SwitchState; NUM_SWITCHES],
    baselines: &[u16; NUM_SWITCHES],
    queue: &mut EventQueue,
    raw: &MuxRaw,
    pots: &Option<[u32; NUM_POTS]>,
    tx_fired: bool,
    rx_activity: bool,
    disabled: &[usize],
) -> (out: ScanOutcome)
    ensures
        ({
            let now = wrapping_add_spec(*old(tick_ms), 1);
            let readings = ControlReadings {
                pitch_down: control_reading(
                    old(state).filters@,
                    baselines@,
                    *raw,
                    disabled@,
                    PITCH_BEND_DOWN as int,
                ),
                pitch_up: control_reading(
                    old(state).filters@,
                    baselines@,
                    *raw,
                    disabled@,
                    PITCH_BEND_UP as int,
                ),
                vibrato_a: control_reading(
                    old(state).filters@,
                    baselines@,
                    *raw,
                    disabled@,
                    VIBRATO_A as int,
                ),
                vibrato_b: control_reading(
                    old(state).filters@,
                    baselines@,
                    *raw,
                    disabled@,
                    VIBRATO_B as int,
                ),
            };
            let all = scan_events(
                old(state).filters@,
                old(switches)@,
                baselines@,
                *raw,
                now,
                disabled@,
                NUM_SWITCHES as int,
            ) + control_events(
                now,
                old(state).last_pitch_bend,
                old(state).last_vibrato_cc,
                old(state).pot_last_cc@,
                readings,
                baselines@,
                *pots,
            );
            let pending = capped(all, PENDING_CAPACITY as int);
            let room = free_room(queue_items(*old(queue)).len());
            let led1_off_at = if tx_fired {
                wrapping_add_spec(now, LED_FLASH_MS)
            } else {
                old(state).led1_off_at
            };
            let led2_off_at = if rx_activity {
                wrapping_add_spec(now, LED_FLASH_MS)
            } else {
                old(state).led2_off_at
            };
            &&& *final(tick_ms) == now
            &&& forall|i: int|
                0 <= i < NUM_SWITCHES ==> switch_scanned(
                    #[trigger] old(state).filters@[i],
                    old(switches)@[i],
                    final(state).filters@[i],
                    final(switches)@[i],
                    baselines@[i],
                    raw_reading(*raw, i),
                    now,
                    scanned(disabled@, i),
                    is_control_switch(i),
                )
            &&& final(state).last_pitch_bend == match pitch_bend_update(
                now,
                old(state).last_pitch_bend,
                readings,
                baselines@,
            ) {
                Some(v) => v,
                None => old(state).last_pitch_bend,
            }
            &&& final(state).last_vibrato_cc == match vibrato_update(
                now,
                old(state).last_vibrato_cc,
                readings,
                baselines@,
            ) {
                Some(v) => v,
                None => old(state).last_vibrato_cc,
            }
            &&& forall|i: int|
                0 <= i < NUM_POTS ==> #[trigger] final(state).pot_last_cc@[i] == match pots_read(
                    now,
                    *pots,
                ) {
                    Some(p) => match pot_update(p@[i], old(state).pot_last_cc@[i]) {
                        Some(v) => v,
                        None => old(state).pot_last_cc@[i],
                    },
                    None => old(state).pot_last_cc@[i],
                }
            &&& queue_items(*final(queue)) == queue_items(*old(queue)) + capped(pending, room)
            &&& indices_in_range(queue_items(*old(queue))) ==> indices_in_range(
                queue_items(*final(queue)),
            )
            &&& out.spawn_events == (pending.len() > 0)
            &&& final(state).led1_off_at == led1_off_at
            &&& final(state).led2_off_at == led2_off_at
            &&& out.leds.tx_on == led_lit_spec(now, led1_off_at)
            &&& out.leds.rx_on == led_lit_spec(now, led2_off_at)
            &&& out.leds.heartbeat_on == heartbeat_spec(now)
        }),
{
    let now = tick_ms.wrapping_add(1);
    *tick_ms = now;

    let mut filters = state.filters;
    let (switch_events, readings) = scan_switches(&mut filters, switches, baselines, raw, now, disabled);
    state.filters = filters;
    let control = scan_controls(state, now, readings, baselines, pots);

    // Collect into the fixed-capacity pending list; events past its capacity are dropped.
    let ghost all = switch_events@ + control@;
    let mut pending = new_pending();
    let mut i: usize = 0;
    while i < switch_events.len()
        invariant
            i <= switch_events@.len(),
            pending_items(pending) == capped(all.take(i as int), PENDING_CAPACITY as int),
            all == switch_events@ + control@,
        decreases switch_events@.len() - i,
    {
        let _ = push_pending(&mut pending, switch_events[i]);
        assert(all.take(i + 1) =~= all.take(i as int).push(all[i as int]));
        assert(all.take(i as int).push(all[i as int]).take(PENDING_CAPACITY as int) =~= all.take(i as int).take(PENDING_CAPACITY as int)
            || all.take(i as int).len() < PENDING_CAPACITY);
        i += 1;
    }
    let mut j: usize = 0;
    while j < control.len()
        invariant
            j <= control@.len(),
            pending_items(pending) == capped(all.take(switch_events@.len() + j), PENDING_CAPACITY as int),
            all == switch_events@ + control@,
        decreases control@.len() - j,
    {
        let _ = push_pending(&mut pending, control[j]);
        assert(all.take(switch_events@.len() + j + 1) =~= all.take(switch_events@.len() + j).push(all[switch_events@.len() + j]));
        j += 1;
    }
    assert(all.take(all.len() as int) =~= all);

    // LEDs.
    if tx_fired {
        state.led1_off_at = now.wrapping_add(LED_FLASH_MS);
    }
    let tx_on = led_lit(now, state.led1_off_at);
    if rx_activity {
        state.led2_off_at = now.wrapping_add(LED_FLASH_MS);
    }
    let rx_on = led_lit(now, state.led2_off_at);
    let heartbeat_on = now % HEARTBEAT_PERIOD_MS < HEARTBEAT_ON_MS;

    let items = pending_into_vec(pending);
    let spawn_events = items.len() > 0;
    let ghost q0 = queue_items(*queue);
    let mut k: usize = 0;
    while k < items.len()
        invariant
            k <= items@.len(),
            queue_items(*queue) == q0 + capped(items@.take(k as int), free_room(q0.len())),
        decreases items@.len() - k,
    {
        let _ = enqueue_event(queue, items[k]);
        assert(items@.take(k + 1) =~= items@.take(k as int).push(items@[k as int]));
        k += 1;
    }
    assert(items@.take(items@.len() as int) =~= items@);
    proof {
        lemma_scan_event_indices(
            old(state).filters@,
            old(switches)@,
            baselines@,
            *raw,
            now,
            disabled@,
            NUM_SWITCHES as int,
        );
        match pots_read(now, *pots) {
            Some(p) => lemma_pot_event_indices(p@, old(state).pot_last_cc@, NUM_POTS as int),
            None => {},
        }
        assert(forall|i: int| 0 <= i < all.len() ==> (#[trigger] all[i]).0 < NUM_SWITCHES);
        assert(forall|i: int|
            0 <= i < items@.len() ==> (#[trigger] items@[i]).0 < NUM_SWITCHES);
    }
    ScanOutcome { leds: LedLevels { tx_on, rx_on, heartbeat_on }, spawn_events }
}

} // verus!
