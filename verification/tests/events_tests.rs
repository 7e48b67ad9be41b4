use hall_effect_keyboard::events::process_events;
use hall_effect_keyboard::midi::MidiSender;
use hall_effect_keyboard::queue::EventQueue;
use hall_effect_keyboard::switch::SwitchEvent;
use hall_effect_keyboard::types::{DisplayState, LastEvent};

fn queue_of(items: &[(usize, SwitchEvent)]) -> EventQueue {
    let mut q: EventQueue = heapless::spsc::Queue::new();
    for &item in items {
        q.enqueue(item).unwrap();
    }
    q
}

#[test]
fn melody_note_on_and_off() {
    let mut q = queue_of(&[
        (0, SwitchEvent::NoteOn { velocity: 100 }),
        (0, SwitchEvent::NoteOff),
    ]);
    let mut sender = MidiSender::new(0);
    let mut melody = 0u8;
    let mut display = DisplayState::new();
    display.last_event = Some(LastEvent::Note { note: 1 });
    let out = process_events(&mut q, &mut sender, &mut melody, &mut display);
    assert!(q.is_empty());
    assert!(out.did_send);
    assert!(out.display_changed);
    assert_eq!(sender.take_pending(), vec![0x90, 78, 100, 0x80, 78, 0]);
    assert_eq!(display.last_event, None);
    assert_eq!(display.melody_channel, 1);
}

#[test]
fn note_on_is_shown() {
    let mut q = queue_of(&[(14, SwitchEvent::NoteOn { velocity: 64 })]);
    let mut sender = MidiSender::new(0);
    let mut melody = 0u8;
    let mut display = DisplayState::new();
    process_events(&mut q, &mut sender, &mut melody, &mut display);
    assert_eq!(sender.take_pending(), vec![0x90, 71, 64]);
    assert_eq!(display.last_event, Some(LastEvent::Note { note: 71 }));
}

#[test]
fn drum_pads_play_on_channel_ten() {
    let mut q = queue_of(&[
        (80, SwitchEvent::NoteOn { velocity: 90 }),
        (99, SwitchEvent::NoteOff),
    ]);
    let mut sender = MidiSender::new(0);
    let mut melody = 1u8;
    let mut display = DisplayState::new();
    process_events(&mut q, &mut sender, &mut melody, &mut display);
    assert_eq!(sender.take_pending(), vec![0x99, 36, 90, 0x89, 55, 0]);
    assert_eq!(melody, 1);
}

#[test]
fn settings_switches_pick_melody_channel() {
    let mut q = queue_of(&[
        (75, SwitchEvent::NoteOn { velocity: 10 }),
        (0, SwitchEvent::NoteOn { velocity: 50 }),
        (72, SwitchEvent::NoteOff),
    ]);
    let mut sender = MidiSender::new(0);
    let mut melody = 0u8;
    let mut display = DisplayState::new();
    let out = process_events(&mut q, &mut sender, &mut melody, &mut display);
    assert_eq!(melody, 1);
    assert_eq!(display.melody_channel, 1);
    assert_eq!(sender.take_pending(), vec![0x91, 78, 50]);
    assert!(out.display_changed);

    let mut q = queue_of(&[(72, SwitchEvent::NoteOn { velocity: 10 })]);
    let out = process_events(&mut q, &mut sender, &mut melody, &mut display);
    assert_eq!(melody, 0);
    assert_eq!(display.melody_channel, 0);
    assert!(!out.did_send);
    assert!(out.display_changed);
    assert!(sender.take_pending().is_empty());
}

#[test]
fn switches_without_a_note_are_skipped() {
    let mut q = queue_of(&[(71, SwitchEvent::NoteOn { velocity: 10 })]);
    let mut sender = MidiSender::new(0);
    let mut melody = 0u8;
    let mut display = DisplayState::new();
    let out = process_events(&mut q, &mut sender, &mut melody, &mut display);
    assert!(!out.did_send);
    assert!(!out.display_changed);
    assert!(sender.take_pending().is_empty());
    assert!(q.is_empty());
}

#[test]
fn controllers_and_pitch_bend() {
    let mut q = queue_of(&[
        (0, SwitchEvent::PotChange { cc: 20, value: 99 }),
        (0, SwitchEvent::PitchBend { value: 0x3FFF }),
    ]);
    let mut sender = MidiSender::new(0);
    let mut melody = 1u8;
    let mut display = DisplayState::new();
    let out = process_events(&mut q, &mut sender, &mut melody, &mut display);
    assert!(out.did_send);
    assert_eq!(sender.take_pending(), vec![0xB1, 20, 99, 0xE1, 0x7F, 0x7F]);
    assert_eq!(display.last_event, Some(LastEvent::Cc { num: 20, value: 99 }));
}

#[test]
fn pitch_bend_alone_leaves_screen() {
    let mut q = queue_of(&[(0, SwitchEvent::PitchBend { value: 0x2000 })]);
    let mut sender = MidiSender::new(0);
    let mut melody = 0u8;
    let mut display = DisplayState::new();
    let out = process_events(&mut q, &mut sender, &mut melody, &mut display);
    assert!(out.did_send);
    assert!(!out.display_changed);
    assert_eq!(display.last_event, None);
    assert_eq!(sender.take_pending(), vec![0xE0, 0x00, 0x40]);
}

#[test]
fn empty_queue_does_nothing() {
    let mut q = queue_of(&[]);
    let mut sender = MidiSender::new(3);
    let mut melody = 0u8;
    let mut display = DisplayState::new();
    let out = process_events(&mut q, &mut sender, &mut melody, &mut display);
    assert!(!out.did_send);
    assert!(!out.display_changed);
    assert!(sender.take_pending().is_empty());
}

#[test]
fn library_queue_starts_empty() {
    let mut q = hall_effect_keyboard::queue::empty_event_queue();
    assert!(q.is_empty());
    q.enqueue((80, SwitchEvent::NoteOn { velocity: 1 })).unwrap();
    let mut sender = MidiSender::new(0);
    let mut melody = 0u8;
    let mut display = DisplayState::new();
    process_events(&mut q, &mut sender, &mut melody, &mut display);
    assert_eq!(sender.take_pending(), vec![0x99, 36, 1]);
}
