use hall_effect_keyboard::settings::Settings;
use hall_effect_keyboard::storage::{
    crc32, decode, encode, load, newest_record, save, Record, RECORD_SIZE, SLOT_ADDRESSES,
};

fn sample_settings() -> Settings {
    Settings {
        melody_channel: 3,
        drum_channel: 9,
        octave: 4,
        pitch_bend_range: 12,
        melody_program: 5,
        drum_program: 200,
        vibrato_enabled: true,
    }
}

fn same(a: &Settings, b: &Settings) -> bool {
    a.melody_channel == b.melody_channel
        && a.drum_channel == b.drum_channel
        && a.octave == b.octave
        && a.pitch_bend_range == b.pitch_bend_range
        && a.melody_program == b.melody_program
        && a.drum_program == b.drum_program
        && a.vibrato_enabled == b.vibrato_enabled
}

#[test]
fn crc32_check_value() {
    assert_eq!(crc32(b"123456789"), 0xCBF4_3926);
    assert_eq!(crc32(b""), 0);
    assert_eq!(crc32(b"a"), 0xE8B7_BE43);
}

#[test]
fn encode_layout() {
    let r = Record { generation: 0x0102_0304, settings: sample_settings() };
    let b = encode(r);
    assert_eq!(&b[0..4], b"KKEY");
    assert_eq!(b[4], 1);
    assert_eq!(b[5], 7);
    assert_eq!(b[6], 0xFF);
    assert_eq!(b[7], 0xFF);
    assert_eq!(&b[8..12], &[0x04, 0x03, 0x02, 0x01]);
    assert_eq!(&b[12..19], &[3, 9, 4, 12, 5, 200, 1]);
    assert!(b[19..28].iter().all(|&x| x == 0xFF));
    let crc = crc32(&b[0..28]);
    assert_eq!(&b[28..32], &crc.to_le_bytes());
}

#[test]
fn decode_encode_round_trip() {
    let r = Record { generation: 77, settings: sample_settings() };
    let d = decode(&encode(r)).expect("valid record");
    assert_eq!(d.generation, 77);
    assert!(same(&d.settings, &r.settings));
    let d = decode(&encode(Record { generation: 0, settings: Settings::default() })).unwrap();
    assert!(same(&d.settings, &Settings::default()));
}

#[test]
fn decode_rejects_bad_records() {
    let good = encode(Record { generation: 1, settings: sample_settings() });
    let mut bad_magic = good;
    bad_magic[0] = b'X';
    assert!(decode(&bad_magic).is_none());
    let mut bad_version = good;
    bad_version[4] = 2;
    assert!(decode(&bad_version).is_none());
    let mut bad_count = good;
    bad_count[5] = 6;
    assert!(decode(&bad_count).is_none());
    let mut bad_crc = good;
    bad_crc[16] ^= 1;
    assert!(decode(&bad_crc).is_none());
    assert!(decode(&[0xFF; RECORD_SIZE]).is_none());

    let mut s = sample_settings();
    s.melody_channel = 16;
    assert!(decode(&encode(Record { generation: 1, settings: s })).is_none());
    let mut s = sample_settings();
    s.octave = 6;
    assert!(decode(&encode(Record { generation: 1, settings: s })).is_none());
    let mut s = sample_settings();
    s.octave = 1;
    assert!(decode(&encode(Record { generation: 1, settings: s })).is_none());
    let mut s = sample_settings();
    s.pitch_bend_range = 0;
    assert!(decode(&encode(Record { generation: 1, settings: s })).is_none());
}

#[test]
fn decode_rejects_vibrato_byte_above_one() {
    let mut b = encode(Record { generation: 1, settings: sample_settings() });
    b[18] = 2;
    let crc = crc32(&b[0..28]);
    b[28..32].copy_from_slice(&crc.to_le_bytes());
    assert!(decode(&b).is_none());
}

#[test]
fn newest_record_prefers_later_generation() {
    let a = Some(encode(Record { generation: 5, settings: sample_settings() }));
    let b = Some(encode(Record { generation: 6, settings: Settings::default() }));
    let (slot, r) = newest_record(&a, &b).unwrap();
    assert_eq!(slot, 1);
    assert_eq!(r.generation, 6);
    let (slot, r) = newest_record(&b, &a).unwrap();
    assert_eq!(slot, 0);
    assert_eq!(r.generation, 6);
}

#[test]
fn newest_record_across_wrap() {
    let a = Some(encode(Record { generation: 0, settings: sample_settings() }));
    let b = Some(encode(Record { generation: u32::MAX, settings: Settings::default() }));
    let (slot, r) = newest_record(&a, &b).unwrap();
    assert_eq!(slot, 0);
    assert_eq!(r.generation, 0);
}

#[test]
fn newest_record_single_or_none() {
    let a = Some(encode(Record { generation: 9, settings: sample_settings() }));
    let erased = Some([0xFF; RECORD_SIZE]);
    assert_eq!(newest_record(&a, &erased).unwrap().0, 0);
    assert_eq!(newest_record(&None, &a).unwrap().0, 1);
    assert!(newest_record(&erased, &None).is_none());
    assert!(newest_record(&None, &None).is_none());
}

#[test]
fn save_on_fresh_flash_uses_slot_zero() {
    let erased = Some([0xFF; RECORD_SIZE]);
    let w = save(&erased, &erased, sample_settings());
    assert_eq!(w.slot, 0);
    assert_eq!(w.address, SLOT_ADDRESSES[0]);
    assert_eq!(w.address, 0x7F_E000);
    assert_eq!(decode(&w.bytes).unwrap().generation, 0);
}

#[test]
fn save_then_load_round_trip() {
    let mut slots = [Some([0xFF; RECORD_SIZE]), Some([0xFF; RECORD_SIZE])];
    assert!(load(&slots[0], &slots[1]).is_none());
    let mut expected_slot = 0;
    for gen in 0..4u32 {
        let mut s = sample_settings();
        s.melody_program = gen as u8;
        let w = save(&slots[0], &slots[1], s);
        assert_eq!(w.slot, expected_slot);
        assert_eq!(w.address, SLOT_ADDRESSES[w.slot]);
        slots[w.slot] = Some(w.bytes);
        let loaded = load(&slots[0], &slots[1]).unwrap();
        assert!(same(&loaded, &s));
        assert_eq!(decode(&w.bytes).unwrap().generation, gen);
        expected_slot = 1 - expected_slot;
    }
}

#[test]
fn interrupted_save_keeps_previous_settings() {
    let erased = Some([0xFF; RECORD_SIZE]);
    let first = save(&erased, &erased, sample_settings());
    let slots = [Some(first.bytes), erased];
    let second = save(&slots[0], &slots[1], Settings::default());
    assert_eq!(second.slot, 1);
    let mut torn = second.bytes;
    torn[20] = 0x00;
    let loaded = load(&slots[0], &Some(torn)).unwrap();
    assert!(same(&loaded, &sample_settings()));
    let loaded = load(&slots[0], &None).unwrap();
    assert!(same(&loaded, &sample_settings()));
}

#[test]
fn save_wraps_generation() {
    let a = Some(encode(Record { generation: u32::MAX, settings: sample_settings() }));
    let w = save(&a, &None, Settings::default());
    assert_eq!(w.slot, 1);
    assert_eq!(decode(&w.bytes).unwrap().generation, 0);
    let loaded = load(&a, &Some(w.bytes)).unwrap();
    assert!(same(&loaded, &Settings::default()));
}

#[test]
fn any_single_corrupted_byte_is_rejected() {
    let good = encode(Record { generation: 0x1234_5678, settings: sample_settings() });
    for k in 0..RECORD_SIZE {
        for flip in [0x01u8, 0x80, 0xFF] {
            let mut bad = good;
            bad[k] ^= flip;
            assert!(decode(&bad).is_none(), "byte {} flipped by {:#x} accepted", k, flip);
        }
    }
}

#[test]
fn failed_save_keeps_previous_settings() {
    let erased = Some([0xFF; RECORD_SIZE]);
    let first = save(&erased, &erased, sample_settings());
    let slots = [Some(first.bytes), erased];
    let second = save(&slots[0], &slots[1], Settings::default());
    // Erase never happened: the slot keeps what it held.
    let loaded = load(&slots[0], &slots[1]).unwrap();
    assert!(same(&loaded, &sample_settings()));
    // Erase done, program not started.
    let loaded = load(&slots[0], &Some([0xFF; RECORD_SIZE])).unwrap();
    assert!(same(&loaded, &sample_settings()));
    // Program stopped half-way.
    let mut half = [0xFF; RECORD_SIZE];
    half[..16].copy_from_slice(&second.bytes[..16]);
    let loaded = load(&slots[0], &Some(half)).unwrap();
    assert!(same(&loaded, &sample_settings()));
}
