use hall_effect_keyboard::calibration::{primed_filters, Calibration};
use hall_effect_keyboard::constants::{NUM_SWITCHES, SWITCH_MAP};

#[test]
fn mean_of_samples() {
    let mut cal = Calibration::new();
    assert_eq!(cal.mean(3, 2), 0);
    cal.add_sample(3, 2, 100);
    cal.add_sample(3, 2, 201);
    assert_eq!(cal.mean(3, 2), 150);
    assert_eq!(cal.mean(2, 3), 0);
}

#[test]
fn add_readings_fills_direct_muxes() {
    let mut cal = Calibration::new();
    let readings = [10, 20, 30, 40, 50, 60, 70, 80, 90];
    for _ in 0..64 {
        cal.add_readings(4, &readings);
    }
    for m in 0..9 {
        assert_eq!(cal.mean(m, 4), readings[m]);
        assert_eq!(cal.mean(m, 3), 0);
    }
    assert_eq!(cal.mean(9, 4), 0);
}

#[test]
fn full_scale_samples_do_not_overflow() {
    let mut cal = Calibration::new();
    for _ in 0..1000 {
        cal.add_sample(12, 7, u16::MAX);
    }
    assert_eq!(cal.mean(12, 7), u16::MAX);
}

#[test]
fn baselines_follow_switch_map() {
    let mut cal = Calibration::new();
    for m in 0..13 {
        for c in 0..8 {
            cal.add_sample(m, c, (m * 100 + c) as u16);
        }
    }
    let b = cal.baselines();
    for i in 0..NUM_SWITCHES {
        let (m, c) = SWITCH_MAP[i];
        assert_eq!(b[i], m as u16 * 100 + c as u16);
    }
    assert_eq!(b[0], 4);
    assert_eq!(b[99], 1203);
}

#[test]
fn primed_filters_start_at_baseline() {
    let mut baselines = [0u16; NUM_SWITCHES];
    for i in 0..NUM_SWITCHES {
        baselines[i] = 1000 + i as u16;
    }
    let filters = primed_filters(&baselines);
    for i in 0..NUM_SWITCHES {
        assert_eq!(filters[i].last_output(), baselines[i]);
    }
}
