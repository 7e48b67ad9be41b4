use hall_effect_keyboard::switch::{
    abs_diff_u16, velocity_of_elapsed, ChannelFilter, SwitchEvent, SwitchPhase, SwitchState,
};

#[test]
fn filter_starts_at_zero() {
    let f = ChannelFilter::new();
    assert_eq!(f.last_output(), 0);
}

#[test]
fn filter_averages_last_four_samples() {
    let mut f = ChannelFilter::new();
    assert_eq!(f.feed(400), 100);
    assert_eq!(f.feed(400), 200);
    assert_eq!(f.feed(400), 300);
    assert_eq!(f.feed(400), 400);
    assert_eq!(f.feed(0), 300);
    assert_eq!(f.feed(1), 200);
    assert_eq!(f.last_output(), 200);
    assert_eq!(f.feed(2), 100);
    assert_eq!(f.feed(5), 2);
}

#[test]
fn filter_prime_fills_window() {
    let mut f = ChannelFilter::new();
    f.feed(7);
    f.prime(2000);
    assert_eq!(f.last_output(), 2000);
    assert_eq!(f.feed(2400), 2100);
}

#[test]
fn filter_handles_full_scale() {
    let mut f = ChannelFilter::new();
    f.prime(u16::MAX);
    assert_eq!(f.feed(u16::MAX), u16::MAX);
}

#[test]
fn abs_diff_both_directions() {
    assert_eq!(abs_diff_u16(2400, 2000), 400);
    assert_eq!(abs_diff_u16(1600, 2000), 400);
    assert_eq!(abs_diff_u16(0, u16::MAX), u16::MAX);
}

#[test]
fn velocity_curve() {
    assert_eq!(velocity_of_elapsed(0), 127);
    assert_eq!(velocity_of_elapsed(1), 127);
    assert_eq!(velocity_of_elapsed(3), 124);
    assert_eq!(velocity_of_elapsed(40), 65);
    assert_eq!(velocity_of_elapsed(79), 4);
    assert_eq!(velocity_of_elapsed(80), 1);
    assert_eq!(velocity_of_elapsed(u32::MAX), 1);
}

fn feed_n(s: &mut SwitchState, adc: u16, base: u16, tick: &mut u32, n: usize) -> Vec<SwitchEvent> {
    let mut out = Vec::new();
    for _ in 0..n {
        *tick += 1;
        if let Some(e) = s.update(adc, base, *tick, 0) {
            out.push(e);
        }
    }
    out
}

#[test]
fn full_stroke_gives_note_on_then_note_off() {
    let mut s = SwitchState::new();
    let mut tick = 100;
    assert_eq!(s.phase(), SwitchPhase::Idle);
    assert!(feed_n(&mut s, 2160, 2000, &mut tick, 2).is_empty());
    assert_eq!(s.phase(), SwitchPhase::Idle);
    assert!(feed_n(&mut s, 2160, 2000, &mut tick, 1).is_empty());
    assert_eq!(s.phase(), SwitchPhase::FirstActuated { tick: 103 });
    assert_eq!(s.last_adc, 2160);
    let ev = feed_n(&mut s, 2300, 2000, &mut tick, 3);
    assert_eq!(ev, vec![SwitchEvent::NoteOn { velocity: 124 }]);
    assert_eq!(s.phase(), SwitchPhase::FullyActuated { velocity: 124 });
    assert!(feed_n(&mut s, 2300, 2000, &mut tick, 10).is_empty());
    assert!(feed_n(&mut s, 2050, 2000, &mut tick, 2).is_empty());
    let ev = feed_n(&mut s, 2050, 2000, &mut tick, 1);
    assert_eq!(ev, vec![SwitchEvent::NoteOff]);
    assert_eq!(s.phase(), SwitchPhase::Idle);
}

#[test]
fn press_toward_south_pole_also_plays() {
    let mut s = SwitchState::new();
    let mut tick = 0;
    feed_n(&mut s, 1800, 2000, &mut tick, 3);
    let ev = feed_n(&mut s, 1700, 2000, &mut tick, 3);
    assert_eq!(ev, vec![SwitchEvent::NoteOn { velocity: 124 }]);
}

#[test]
fn bounce_resets_debounce() {
    let mut s = SwitchState::new();
    let mut tick = 0;
    feed_n(&mut s, 2200, 2000, &mut tick, 2);
    feed_n(&mut s, 2000, 2000, &mut tick, 1);
    feed_n(&mut s, 2200, 2000, &mut tick, 2);
    assert_eq!(s.phase(), SwitchPhase::Idle);
    feed_n(&mut s, 2200, 2000, &mut tick, 1);
    assert!(matches!(s.phase(), SwitchPhase::FirstActuated { .. }));
}

#[test]
fn half_press_released_gives_no_event() {
    let mut s = SwitchState::new();
    let mut tick = 0;
    feed_n(&mut s, 2200, 2000, &mut tick, 3);
    assert!(matches!(s.phase(), SwitchPhase::FirstActuated { .. }));
    let ev = feed_n(&mut s, 2010, 2000, &mut tick, 3);
    assert!(ev.is_empty());
    assert_eq!(s.phase(), SwitchPhase::Idle);
}

#[test]
fn slow_stroke_gives_low_velocity() {
    let mut s = SwitchState::new();
    let mut tick = 0;
    feed_n(&mut s, 2200, 2000, &mut tick, 3);
    feed_n(&mut s, 2200, 2000, &mut tick, 200);
    let ev = feed_n(&mut s, 2400, 2000, &mut tick, 3);
    assert_eq!(ev, vec![SwitchEvent::NoteOn { velocity: 1 }]);
}

#[test]
fn tick_going_backwards_counts_as_instant() {
    let mut s = SwitchState::new();
    for t in 0..3 {
        s.update(2200, 2000, 1000 + t, 0);
    }
    let mut ev = None;
    for t in 0..3 {
        ev = s.update(2400, 2000, t, 0);
    }
    assert_eq!(ev, Some(SwitchEvent::NoteOn { velocity: 127 }));
}

#[test]
fn half_pressed_release_and_press_samples_share_one_counter() {
    let mut s = SwitchState::new();
    let mut tick = 0;
    feed_n(&mut s, 2200, 2000, &mut tick, 3);
    assert!(matches!(s.phase(), SwitchPhase::FirstActuated { .. }));
    assert!(feed_n(&mut s, 2050, 2000, &mut tick, 1).is_empty());
    let ev = feed_n(&mut s, 2300, 2000, &mut tick, 2);
    assert_eq!(ev, vec![SwitchEvent::NoteOn { velocity: 124 }]);
}
