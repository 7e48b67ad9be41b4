use hall_effect_keyboard::settings::{settings_item, Settings, NUM_SETTINGS_ITEMS};

#[test]
fn default_settings() {
    let s = Settings::default();
    assert_eq!(s.melody_channel, 0);
    assert_eq!(s.drum_channel, 9);
    assert_eq!(s.octave, 2);
    assert_eq!(s.pitch_bend_range, 2);
    assert_eq!(s.melody_program, 0);
    assert_eq!(s.drum_program, 0);
    assert!(!s.vibrato_enabled);
}

#[test]
fn get_shows_channels_one_indexed() {
    let s = Settings::default();
    assert_eq!(s.get(0), 1);
    assert_eq!(s.get(1), 10);
    assert_eq!(s.get(2), 2);
    assert_eq!(s.get(3), 2);
    assert_eq!(s.get(4), 0);
    assert_eq!(s.get(5), 0);
    assert_eq!(s.get(6), 0);
    assert_eq!(s.get(usize::MAX), 0);
}

#[test]
fn set_clamps_to_item_range() {
    let mut s = Settings::default();
    s.set(0, 20);
    assert_eq!(s.melody_channel, 15);
    assert_eq!(s.get(0), 16);
    s.set(0, -3);
    assert_eq!(s.melody_channel, 0);
    s.set(1, 5);
    assert_eq!(s.drum_channel, 4);
    s.set(2, 1);
    assert_eq!(s.octave, 2);
    s.set(2, 9);
    assert_eq!(s.octave, 5);
    s.set(3, 0);
    assert_eq!(s.pitch_bend_range, 1);
    s.set(3, 13);
    assert_eq!(s.pitch_bend_range, 12);
    s.set(4, 300);
    assert_eq!(s.melody_program, 127);
    s.set(5, 64);
    assert_eq!(s.drum_program, 64);
}

#[test]
fn set_leaves_other_items_alone() {
    let mut s = Settings::default();
    s.set(4, 42);
    assert_eq!(s.melody_program, 42);
    assert_eq!(s.get(0), 1);
    assert_eq!(s.get(1), 10);
    assert_eq!(s.get(2), 2);
    assert_eq!(s.get(3), 2);
    assert_eq!(s.get(5), 0);
}

#[test]
fn adjust_steps_and_clamps() {
    let mut s = Settings::default();
    s.adjust(2, 1);
    assert_eq!(s.octave, 3);
    s.adjust(2, 10);
    assert_eq!(s.octave, 5);
    s.adjust(0, -1);
    assert_eq!(s.melody_channel, 0);
    s.adjust(1, 3);
    assert_eq!(s.drum_channel, 12);
    s.adjust(1, -20);
    assert_eq!(s.drum_channel, 0);
}

#[test]
fn settings_menu_items() {
    let names = [
        "MELODY CHANNEL",
        "DRUM CHANNEL",
        "OCTAVE",
        "BEND RANGE",
        "MELODY PROGRAM",
        "DRUM PROGRAM",
    ];
    let ranges = [(1, 16), (1, 16), (2, 5), (1, 12), (0, 127), (0, 127)];
    for i in 0..NUM_SETTINGS_ITEMS {
        let item = settings_item(i);
        assert_eq!(item.name, names[i]);
        assert_eq!((item.min, item.max), ranges[i]);
    }
}
