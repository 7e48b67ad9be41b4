use hall_effect_keyboard::display::{main_screen_text, note_name, settings_screen};
use hall_effect_keyboard::settings::Settings;
use hall_effect_keyboard::types::{DisplayState, LastEvent};

#[test]
fn note_names() {
    assert_eq!(note_name(60), ("C", 4));
    assert_eq!(note_name(0), ("C", -1));
    assert_eq!(note_name(61), ("C#", 4));
    assert_eq!(note_name(69), ("A", 4));
    assert_eq!(note_name(127), ("G", 9));
}

#[test]
fn main_screen_for_note() {
    let mut s = DisplayState::new();
    s.last_event = Some(LastEvent::Note { note: 60 });
    let t = main_screen_text(&s);
    assert_eq!(t.label, "C4");
    assert_eq!(t.number, "60");
    s.last_event = Some(LastEvent::Note { note: 61 });
    let t = main_screen_text(&s);
    assert_eq!(t.label, "C#4");
    assert_eq!(t.number, "61");
    assert_eq!(t.keys_channel, "2");
    assert_eq!(t.drum_channel, "10");
}

#[test]
fn main_screen_for_lowest_note() {
    let mut s = DisplayState::new();
    s.last_event = Some(LastEvent::Note { note: 5 });
    let t = main_screen_text(&s);
    assert_eq!(t.label, "F-1");
    assert_eq!(t.number, "5");
}

#[test]
fn main_screen_for_controller() {
    let mut s = DisplayState::new();
    s.melody_channel = 0;
    s.last_event = Some(LastEvent::Cc { num: 7, value: 127 });
    let t = main_screen_text(&s);
    assert_eq!(t.label, "CC 7");
    assert_eq!(t.number, "127");
    assert_eq!(t.keys_channel, "1");
}

#[test]
fn main_screen_when_idle() {
    let mut s = DisplayState::new();
    let t = main_screen_text(&s);
    assert_eq!(t.label, "");
    assert_eq!(t.number, "");
    s.last_event = Some(LastEvent::Clear);
    let t = main_screen_text(&s);
    assert_eq!(t.label, "");
    assert_eq!(t.number, "");
}

#[test]
fn settings_screen_rows() {
    let settings = Settings::default();
    let screen = settings_screen(0, &settings);
    assert_eq!(screen.prev.item, 5);
    assert_eq!(screen.prev.name, "DRUM PROGRAM");
    assert_eq!(screen.prev.value, "0");
    assert_eq!(screen.current.item, 0);
    assert_eq!(screen.current.name, "MELODY CHANNEL");
    assert_eq!(screen.current.value, "1");
    assert_eq!(screen.next.item, 1);
    assert_eq!(screen.next.name, "DRUM CHANNEL");
    assert_eq!(screen.next.value, "10");
    assert_eq!(screen.underline_x0, 122);
}

#[test]
fn settings_screen_wraps_and_sizes_underline() {
    let mut settings = Settings::default();
    settings.drum_program = 100;
    let screen = settings_screen(5, &settings);
    assert_eq!(screen.prev.item, 4);
    assert_eq!(screen.current.value, "100");
    assert_eq!(screen.next.item, 0);
    assert_eq!(screen.underline_x0, 127 - 18 + 1);
    settings.octave = -3;
    let screen = settings_screen(2, &settings);
    assert_eq!(screen.current.value, "-3");
    assert_eq!(screen.underline_x0, 116);
}
