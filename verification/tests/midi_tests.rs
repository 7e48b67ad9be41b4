use hall_effect_keyboard::midi::MidiSender;

#[test]
fn note_messages() {
    let mut m = MidiSender::new(0);
    m.note_on(60, 100);
    m.note_off(60, 0);
    assert_eq!(m.take_pending(), vec![0x90, 60, 100, 0x80, 60, 0]);
    assert!(m.take_pending().is_empty());
}

#[test]
fn data_bytes_are_masked_to_seven_bits() {
    let mut m = MidiSender::new(2);
    m.note_on(0xFF, 0x80);
    assert_eq!(m.take_pending(), vec![0x92, 0x7F, 0x00]);
}

#[test]
fn channel_is_masked_to_four_bits() {
    let mut m = MidiSender::new(0x13);
    m.control_change(7, 127);
    assert_eq!(m.take_pending(), vec![0xB3, 7, 127]);
    m.set_channel(0x2A);
    m.note_on(1, 1);
    assert_eq!(m.take_pending(), vec![0x9A, 1, 1]);
}

#[test]
fn pitch_bend_splits_fourteen_bits() {
    let mut m = MidiSender::new(0);
    m.pitch_bend(0x2000);
    m.pitch_bend(0x3FFF);
    m.pitch_bend(0);
    m.pitch_bend(0x1234);
    assert_eq!(
        m.take_pending(),
        vec![0xE0, 0x00, 0x40, 0xE0, 0x7F, 0x7F, 0xE0, 0, 0, 0xE0, 0x34, 0x24]
    );
}

#[test]
fn all_notes_off_is_cc_123() {
    let mut m = MidiSender::new(9);
    m.all_notes_off();
    assert_eq!(m.take_pending(), vec![0xB9, 123, 0]);
}
