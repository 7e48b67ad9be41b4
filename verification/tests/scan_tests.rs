use hall_effect_keyboard::calibration::primed_filters;
use hall_effect_keyboard::constants::{MUX_CHANNELS, NUM_MUXES, NUM_POTS, NUM_SWITCHES};
use hall_effect_keyboard::queue::EventQueue;
use hall_effect_keyboard::scan::{
    led_lit, pitch_bend_value, pot_scan_due, pot_value, scan_step, vibrato_value, MuxRaw,
    ScanState,
};
use hall_effect_keyboard::switch::{SwitchEvent, SwitchState};

#[test]
fn pitch_bend_values() {
    assert_eq!(pitch_bend_value(0, 0), 0x2000);
    assert_eq!(pitch_bend_value(99, 99), 0x2000);
    assert_eq!(pitch_bend_value(400, 0), 0);
    assert_eq!(pitch_bend_value(1000, 0), 0);
    assert_eq!(pitch_bend_value(0, 400), 0x3FFF);
    assert_eq!(pitch_bend_value(200, 0), 0x1000);
    assert_eq!(pitch_bend_value(100, 100), 0x2000 - 0x800 + 0x7FF);
}

#[test]
fn vibrato_values() {
    assert_eq!(vibrato_value(0, 0), 0);
    assert_eq!(vibrato_value(30, 10), 0);
    assert_eq!(vibrato_value(180, 0), 63);
    assert_eq!(vibrato_value(0, 180), 63);
    assert_eq!(vibrato_value(330, 0), 127);
    assert_eq!(vibrato_value(u16::MAX, 0), 127);
}

#[test]
fn pot_values() {
    assert_eq!(pot_value(0), 127);
    assert_eq!(pot_value(4095), 0);
    assert_eq!(pot_value(5000), 0);
    assert_eq!(pot_value(2048), 63);
}

#[test]
fn pot_scan_every_ten_ticks() {
    assert!(pot_scan_due(0));
    assert!(pot_scan_due(20));
    assert!(!pot_scan_due(21));
}

#[test]
fn activity_led_window() {
    assert!(led_lit(100, 150));
    assert!(led_lit(149, 150));
    assert!(!led_lit(150, 150));
    assert!(!led_lit(151, 150));
    assert!(led_lit(u32::MAX, 20));
    assert!(!led_lit(0, 0));
}

struct Rig {
    tick: u32,
    state: ScanState,
    switches: [SwitchState; NUM_SWITCHES],
    baselines: [u16; NUM_SWITCHES],
    queue: EventQueue,
}

fn rig() -> Rig {
    let baselines = [2000u16; NUM_SWITCHES];
    Rig {
        tick: 0,
        state: ScanState::new(primed_filters(&baselines)),
        switches: [SwitchState::new(); NUM_SWITCHES],
        baselines,
        queue: heapless::spsc::Queue::new(),
    }
}

fn drain(q: &mut EventQueue) -> Vec<(usize, SwitchEvent)> {
    let mut out = Vec::new();
    while let Some(e) = q.dequeue() {
        out.push(e);
    }
    out
}

#[test]
fn scan_press_raises_note_on() {
    let mut r = rig();
    let mut raw: MuxRaw = [[2000; MUX_CHANNELS]; NUM_MUXES];
    raw[0][4] = 2400; // switch 0 (HE1) sits on AM1 channel 4
    let mut spawned = false;
    for _ in 0..7 {
        let out = scan_step(
            &mut r.tick,
            &mut r.state,
            &mut r.switches,
            &r.baselines,
            &mut r.queue,
            &raw,
            &None,
            false,
            false,
            &[],
        );
        spawned |= out.spawn_events;
    }
    assert_eq!(r.tick, 7);
    assert!(spawned);
    assert_eq!(drain(&mut r.queue), vec![(0, SwitchEvent::NoteOn { velocity: 124 })]);
}

#[test]
fn disabled_switch_is_not_scanned() {
    let mut r = rig();
    let mut raw: MuxRaw = [[2000; MUX_CHANNELS]; NUM_MUXES];
    raw[0][4] = 2400;
    for _ in 0..10 {
        let out = scan_step(
            &mut r.tick, &mut r.state, &mut r.switches, &r.baselines, &mut r.queue, &raw, &None,
            false, false, &[0],
        );
        assert!(!out.spawn_events);
    }
    assert!(drain(&mut r.queue).is_empty());
    assert_eq!(r.state.filters[0].last_output(), 2000);
}

#[test]
fn arrow_key_bends_pitch() {
    let mut r = rig();
    let mut raw: MuxRaw = [[2000; MUX_CHANNELS]; NUM_MUXES];
    raw[10][0] = 2400; // switch 79 (HE80, pitch up) sits on AM11 channel 0
    for _ in 0..5 {
        scan_step(
            &mut r.tick, &mut r.state, &mut r.switches, &r.baselines, &mut r.queue, &raw, &None,
            false, false, &[],
        );
    }
    assert_eq!(r.tick, 5);
    assert_eq!(drain(&mut r.queue), vec![(0, SwitchEvent::PitchBend { value: 0x3FFF })]);
    assert_eq!(r.state.last_pitch_bend, 0x3FFF);
}

#[test]
fn pots_report_on_first_scan() {
    let mut r = rig();
    let raw: MuxRaw = [[2000; MUX_CHANNELS]; NUM_MUXES];
    r.tick = 9;
    let pots = Some([0u32; NUM_POTS]);
    let out = scan_step(
        &mut r.tick, &mut r.state, &mut r.switches, &r.baselines, &mut r.queue, &raw, &pots,
        false, false, &[],
    );
    assert!(out.spawn_events);
    let events = drain(&mut r.queue);
    assert_eq!(events.len(), 12);
    assert_eq!(events[0], (0, SwitchEvent::PotChange { cc: 20, value: 127 }));
    assert_eq!(events[11], (0, SwitchEvent::PotChange { cc: 31, value: 127 }));
    // Unchanged pots stay quiet on the next scan.
    r.tick = 19;
    let out = scan_step(
        &mut r.tick, &mut r.state, &mut r.switches, &r.baselines, &mut r.queue, &raw, &pots,
        false, false, &[],
    );
    assert!(!out.spawn_events);
}

#[test]
fn pending_events_are_capped() {
    let mut r = rig();
    let raw: MuxRaw = [[2400; MUX_CHANNELS]; NUM_MUXES];
    let mut total = 0;
    for _ in 0..7 {
        scan_step(
            &mut r.tick, &mut r.state, &mut r.switches, &r.baselines, &mut r.queue, &raw, &None,
            false, false, &[],
        );
        total += drain(&mut r.queue).len();
    }
    // 96 switches reach full actuation on the seventh tick; one scan collects at most 32 events.
    assert_eq!(total, 32);
}

#[test]
fn leds_follow_activity() {
    let mut r = rig();
    let raw: MuxRaw = [[2000; MUX_CHANNELS]; NUM_MUXES];
    let out = scan_step(
        &mut r.tick, &mut r.state, &mut r.switches, &r.baselines, &mut r.queue, &raw, &None, true,
        false, &[],
    );
    assert!(out.leds.tx_on);
    assert!(!out.leds.rx_on);
    assert!(out.leds.heartbeat_on);
    assert_eq!(r.state.led1_off_at, 51);
    r.tick = 600;
    let out = scan_step(
        &mut r.tick, &mut r.state, &mut r.switches, &r.baselines, &mut r.queue, &raw, &None, false,
        true,
        &[],
    );
    assert!(!out.leds.tx_on);
    assert!(out.leds.rx_on);
    assert!(!out.leds.heartbeat_on);
}

#[test]
fn full_queue_drops_events() {
    let mut r = rig();
    for _ in 0..63 {
        r.queue.enqueue((0, SwitchEvent::NoteOff)).unwrap();
    }
    let mut raw: MuxRaw = [[2000; MUX_CHANNELS]; NUM_MUXES];
    raw[0][4] = 2400;
    let mut spawned = false;
    for _ in 0..7 {
        spawned |= scan_step(
            &mut r.tick, &mut r.state, &mut r.switches, &r.baselines, &mut r.queue, &raw, &None,
            false, false, &[],
        )
        .spawn_events;
    }
    assert!(spawned);
    assert_eq!(drain(&mut r.queue).len(), 63);
}
