//! Settings records for the final two sectors of the QSPI flash.
//!
//! Two alternating records keep the previous settings intact if power is lost while
//! erasing or programming the next record.
use vstd::prelude::*;

use crate::settings::{item_max, item_min, Settings, NUM_SETTINGS_ITEMS};

verus! {

/// Flash addresses of the two record slots.
pub const SLOT_ADDRESSES: [u32; 2] = [0x7F_E000, 0x7F_F000];
/// Size of one encoded record in bytes.
pub const RECORD_SIZE: usize = 32;
/// Number of bytes covered by the checksum.
pub const CHECKED_SIZE: usize = 28;
/// "KKEY"
pub const MAGIC: [u8; 4] = [0x4B, 0x4B, 0x45, 0x59];
pub const VERSION: u8 = 1;
/// Number of settings fields the record stores.
pub const FIELD_COUNT: u8 = 7;
/// Reflected CRC-32 polynomial (IEEE 802.3).
pub const CRC_POLY: u32 = 0xEDB8_8320;

/// A settings record together with the generation that orders the two slots.
#[derive(Clone, Copy)]
pub struct Record {
    pub generation: u32,
    pub settings: Settings,
}

// ── CRC-32 ───────────────────────────────────────────────────────────────────

/// One bit of the reflected CRC-32 shift register.
pub open spec fn crc_bit(c: u32) -> u32 {
    if c & 1 == 1 {
        (c >> 1) ^ CRC_POLY
    } else {
        c >> 1
    }
}

/// `n` bits of the shift register.
pub open spec fn crc_bits(c: u32, n: nat) -> u32
    decreases n,
{
    if n == 0 {
        c
    } else {
        crc_bits(crc_bit(c), (n - 1) as nat)
    }
}

/// The register after absorbing one byte.
pub open spec fn crc_byte(c: u32, b: u8) -> u32 {
    crc_bits(c ^ (b as u32), 8)
}

/// The register after absorbing `s`, starting from all ones.
pub open spec fn crc_register(s: Seq<u8>) -> u32
    decreases s.len(),
{
    if s.len() == 0 {
        0xFFFF_FFFF
    } else {
        crc_byte(crc_register(s.drop_last()), s.last())
    }
}

/// CRC-32 (IEEE 802.3, reflected, initial and final value all ones) of `s`.
pub open spec fn crc32_spec(s: Seq<u8>) -> u32 {
    !crc_register(s)
}

/// CRC-32 (IEEE 802.3) of `bytes`.
pub fn crc32(bytes: &[u8]) -> (crc: u32)
    ensures
        crc == crc32_spec(bytes@),
{
    let mut crc = 0xFFFF_FFFFu32;
    let mut i: usize = 0;
    while i < bytes.len()
        invariant
            i <= bytes@.len(),
            crc == crc_register(bytes@.take(i as int)),
        decreases bytes@.len() - i,
    {
        let byte = bytes[i];
        let start = crc ^ (byte as u32);
        crc = start;
        let mut k: usize = 0;
        while k < 8
            invariant
                k <= 8,
                crc_bits(start, 8) == crc_bits(crc, (8 - k) as nat),
            decreases 8 - k,
        {
            let mask = 0u32.wrapping_sub(crc & 1);
            assert(crc & 1 == 0 || crc & 1 == 1) by (bit_vector);
            assert((crc >> 1) ^ (CRC_POLY & mask) == crc_bit(crc)) by (bit_vector)
                requires
                    crc & 1 == 0 ==> mask == 0,
                    crc & 1 == 1 ==> mask == 0xFFFF_FFFF,
            ;
            crc = (crc >> 1) ^ (CRC_POLY & mask);
            k += 1;
        }
        assert(bytes@.take(i + 1).drop_last() =~= bytes@.take(i as int));
        i += 1;
    }
    assert(bytes@.take(bytes@.len() as int) =~= bytes@);
    !crc
}

/// One register step is invertible: the low bit of the input is the top bit of the output.
proof fn lemma_crc_bit_injective(x: u32, y: u32)
    ensures
        crc_bit(x) == crc_bit(y) ==> x == y,
{
    assert((if x & 1 == 1 { (x >> 1) ^ 0xEDB8_8320u32 } else { x >> 1 }) == (if y & 1 == 1 {
        (y >> 1) ^ 0xEDB8_8320u32
    } else {
        y >> 1
    }) ==> x == y) by (bit_vector);
}

proof fn lemma_crc_bits_injective(x: u32, y: u32, n: nat)
    ensures
        crc_bits(x, n) == crc_bits(y, n) ==> x == y,
    decreases n,
{
    if n > 0 {
        lemma_crc_bits_injective(crc_bit(x), crc_bit(y), (n - 1) as nat);
        lemma_crc_bit_injective(x, y);
    }
}

/// From one register, different bytes lead to different registers.
proof fn lemma_crc_byte_injective_in_byte(c: u32, b1: u8, b2: u8)
    ensures
        crc_byte(c, b1) == crc_byte(c, b2) ==> b1 == b2,
{
    lemma_crc_bits_injective(c ^ (b1 as u32), c ^ (b2 as u32), 8);
    assert(c ^ (b1 as u32) == c ^ (b2 as u32) ==> b1 == b2) by (bit_vector);
}

/// With the same byte, different registers stay different.
proof fn lemma_crc_byte_injective_in_register(c1: u32, c2: u32, b: u8)
    ensures
        crc_byte(c1, b) == crc_byte(c2, b) ==> c1 == c2,
{
    lemma_crc_bits_injective(c1 ^ (b as u32), c2 ^ (b as u32), 8);
    assert(c1 ^ (b as u32) == c2 ^ (b as u32) ==> c1 == c2) by (bit_vector);
}

/// Two messages of the same length that differ in exactly one byte have different CRC-32s.
pub proof fn lemma_crc32_detects_single_byte_change(m1: Seq<u8>, m2: Seq<u8>, k: int)
    requires
        m1.len() == m2.len(),
        0 <= k < m1.len(),
        m1[k] != m2[k],
        forall|i: int| 0 <= i < m1.len() && i != k ==> m1[i] == m2[i],
    ensures
        crc32_spec(m1) != crc32_spec(m2),
{
    lemma_crc_register_differs(m1, m2, k, m1.len() as int);
    let a = crc_register(m1);
    let b = crc_register(m2);
    assert(a != b ==> !a != !b) by (bit_vector);
    assert(m1.take(m1.len() as int) =~= m1);
    assert(m2.take(m2.len() as int) =~= m2);
}

proof fn lemma_crc_register_differs(m1: Seq<u8>, m2: Seq<u8>, k: int, j: int)
    requires
        m1.len() == m2.len(),
        0 <= k < j <= m1.len(),
        m1[k] != m2[k],
        forall|i: int| 0 <= i < m1.len() && i != k ==> m1[i] == m2[i],
    ensures
        crc_register(m1.take(j)) != crc_register(m2.take(j)),
    decreases j,
{
    let p1 = m1.take(j);
    let p2 = m2.take(j);
    assert(p1.drop_last() =~= m1.take(j - 1));
    assert(p2.drop_last() =~= m2.take(j - 1));
    if j == k + 1 {
        assert(m1.take(j - 1) =~= m2.take(j - 1));
        lemma_crc_byte_injective_in_byte(crc_register(m1.take(j - 1)), m1[k], m2[k]);
    } else {
        lemma_crc_register_differs(m1, m2, k, j - 1);
        assert(m1[j - 1] == m2[j - 1]);
        lemma_crc_byte_injective_in_register(
            crc_register(m1.take(j - 1)),
            crc_register(m2.take(j - 1)),
            m1[j - 1],
        );
    }
}

// ── Little-endian words ──────────────────────────────────────────────────────

/// The four little-endian bytes of `x`.
pub open spec fn le_bytes(x: u32) -> Seq<u8> {
    seq![
        (x & 0xff) as u8,
        ((x >> 8) & 0xff) as u8,
        ((x >> 16) & 0xff) as u8,
        ((x >> 24) & 0xff) as u8,
    ]
}

/// The word whose little-endian bytes are `b0, b1, b2, b3`.
pub open spec fn le_word(b0: u8, b1: u8, b2: u8, b3: u8) -> u32 {
    (b0 as u32) | ((b1 as u32) << 8) | ((b2 as u32) << 16) | ((b3 as u32) << 24)
}

/// The word stored little-endian at `s[at..at + 4]`.
pub open spec fn le_word_at(s: Seq<u8>, at: int) -> u32 {
    le_word(s[at], s[at + 1], s[at + 2], s[at + 3])
}

/// A word's little-endian bytes are the bytes it was read from.
pub proof fn lemma_le_bytes_word(b0: u8, b1: u8, b2: u8, b3: u8)
    ensures
        le_bytes(le_word(b0, b1, b2, b3)) == seq![b0, b1, b2, b3],
{
    let x = le_word(b0, b1, b2, b3);
    assert((((b0 as u32) | ((b1 as u32) << 8) | ((b2 as u32) << 16) | ((b3 as u32) << 24)) & 0xff)
        as u8 == b0) by (bit_vector);
    assert(((((b0 as u32) | ((b1 as u32) << 8) | ((b2 as u32) << 16) | ((b3 as u32) << 24)) >> 8)
        & 0xff) as u8 == b1) by (bit_vector);
    assert(((((b0 as u32) | ((b1 as u32) << 8) | ((b2 as u32) << 16) | ((b3 as u32) << 24)) >> 16)
        & 0xff) as u8 == b2) by (bit_vector);
    assert(((((b0 as u32) | ((b1 as u32) << 8) | ((b2 as u32) << 16) | ((b3 as u32) << 24)) >> 24)
        & 0xff) as u8 == b3) by (bit_vector);
    assert(le_bytes(x) =~= seq![b0, b1, b2, b3]);
}

/// Reading back the little-endian bytes of a word gives the word.
pub proof fn lemma_le_word_bytes(x: u32)
    ensures
        le_word(le_bytes(x)[0], le_bytes(x)[1], le_bytes(x)[2], le_bytes(x)[3]) == x,
{
    assert(((x & 0xff) as u8 as u32) | ((((x >> 8) & 0xff) as u8 as u32) << 8) | ((((x >> 16)
        & 0xff) as u8 as u32) << 16) | ((((x >> 24) & 0xff) as u8 as u32) << 24) == x)
        by (bit_vector);
}

fn write_le(bytes: &mut [u8; RECORD_SIZE], at: usize, x: u32)
    requires
        at + 4 <= RECORD_SIZE,
    ensures
        final(bytes)@ == old(bytes)@.subrange(0, at as int) + le_bytes(x) + old(bytes)@.subrange(
            at + 4,
            RECORD_SIZE as int,
        ),
{
    bytes[at] = (x & 0xff) as u8;
    bytes[at + 1] = ((x >> 8) & 0xff) as u8;
    bytes[at + 2] = ((x >> 16) & 0xff) as u8;
    bytes[at + 3] = ((x >> 24) & 0xff) as u8;
    assert(bytes@ =~= old(bytes)@.subrange(0, at as int) + le_bytes(x) + old(bytes)@.subrange(
        at + 4,
        RECORD_SIZE as int,
    ));
}

fn read_le(bytes: &[u8; RECORD_SIZE], at: usize) -> (x: u32)
    requires
        at + 4 <= RECORD_SIZE,
    ensures
        x == le_word_at(bytes@, at as int),
{
    (bytes[at] as u32) | ((bytes[at + 1] as u32) << 8) | ((bytes[at + 2] as u32) << 16) | ((bytes[at
        + 3] as u32) << 24)
}

// ── Record layout ────────────────────────────────────────────────────────────

/// The ranges a stored record accepts for each setting.
pub open spec fn storable(s: Settings) -> bool {
    &&& s.melody_channel <= 15
    &&& s.drum_channel <= 15
    &&& 2 <= s.octave <= 5
    &&& 1 <= s.pitch_bend_range <= 12
}

/// The first `CHECKED_SIZE` bytes of a record: magic, version, field count, two erased
/// bytes, the generation, the seven settings bytes, and erased padding.
pub open spec fn record_body(r: Record) -> Seq<u8> {
    MAGIC@ + seq![VERSION, FIELD_COUNT, 0xFFu8, 0xFFu8] + le_bytes(r.generation) + seq![
        r.settings.melody_channel,
        r.settings.drum_channel,
        r.settings.octave as u8,
        r.settings.pitch_bend_range,
        r.settings.melody_program,
        r.settings.drum_program,
        if r.settings.vibrato_enabled {
            1u8
        } else {
            0u8
        },
    ] + Seq::new(9, |i: int| 0xFFu8)
}

/// The full record: its body followed by the little-endian CRC-32 of the body.
pub open spec fn encoded(r: Record) -> Seq<u8> {
    record_body(r) + le_bytes(crc32_spec(record_body(r)))
}

/// What `bytes` decode to: `None` unless the header, the checksum and every range check
/// pass.
pub open spec fn decoded(bytes: Seq<u8>) -> Option<Record> {
    if bytes.len() != RECORD_SIZE {
        None
    } else if bytes.take(4) != MAGIC@ || bytes[4] != VERSION || bytes[5] != FIELD_COUNT {
        None
    } else if crc32_spec(bytes.take(CHECKED_SIZE as int)) != le_word_at(bytes, 28) {
        None
    } else {
        let settings = Settings {
            melody_channel: bytes[12],
            drum_channel: bytes[13],
            octave: bytes[14] as i8,
            pitch_bend_range: bytes[15],
            melody_program: bytes[16],
            drum_program: bytes[17],
            vibrato_enabled: bytes[18] != 0,
        };
        if !storable(settings) || bytes[18] > 1 {
            None
        } else {
            Some(Record { generation: le_word_at(bytes, 8), settings })
        }
    }
}

/// Lays `record` out as flash bytes.
pub fn encode(record: Record) -> (bytes: [u8; RECORD_SIZE])
    ensures
        bytes@ == encoded(record),
{
    let mut bytes = [
        0xFFu8, 0xFF, 0xFF, 0xFF, 0xFF, 0xFF, 0xFF, 0xFF, 0xFF, 0xFF, 0xFF, 0xFF, 0xFF, 0xFF, 0xFF, 0xFF,
        0xFF, 0xFF, 0xFF, 0xFF, 0xFF, 0xFF, 0xFF, 0xFF, 0xFF, 0xFF, 0xFF, 0xFF, 0xFF, 0xFF, 0xFF, 0xFF,
    ];
    bytes[0] = MAGIC[0];
    bytes[1] = MAGIC[1];
    bytes[2] = MAGIC[2];
    bytes[3] = MAGIC[3];
    bytes[4] = VERSION;
    bytes[5] = FIELD_COUNT;
    write_le(&mut bytes, 8, record.generation);
    bytes[12] = record.settings.melody_channel;
    bytes[13] = record.settings.drum_channel;
    bytes[14] = record.settings.octave as u8;
    bytes[15] = record.settings.pitch_bend_range;
    bytes[16] = record.settings.melody_program;
    bytes[17] = record.settings.drum_program;
    bytes[18] = if record.settings.vibrato_enabled {
        1
    } else {
        0
    };
    assert(bytes@.subrange(0, CHECKED_SIZE as int) =~= record_body(record));
    let checksum = crc32(&bytes[0..CHECKED_SIZE]);
    write_le(&mut bytes, CHECKED_SIZE, checksum);
    assert(bytes@ =~= encoded(record));
    bytes
}

/// Reads a record back from flash bytes; `None` for an erased, corrupt or foreign slot.
pub fn decode(bytes: &[u8; RECORD_SIZE]) -> (r: Option<Record>)
    ensures
        r == decoded(bytes@),
{
    if bytes[0] != MAGIC[0] || bytes[1] != MAGIC[1] || bytes[2] != MAGIC[2] || bytes[3]
        != MAGIC[3] || bytes[4] != VERSION || bytes[5] != FIELD_COUNT {
        proof {
            if bytes@.take(4) == MAGIC@ {
                assert(bytes@.take(4)[0] == bytes@[0]);
                assert(bytes@.take(4)[1] == bytes@[1]);
                assert(bytes@.take(4)[2] == bytes@[2]);
                assert(bytes@.take(4)[3] == bytes@[3]);
            }
        }
        return None;
    }
    assert(bytes@.take(4) =~= MAGIC@);
    let expected = read_le(bytes, 28);
    let checksum = crc32(&bytes[0..CHECKED_SIZE]);
    assert(bytes@.subrange(0, CHECKED_SIZE as int) =~= bytes@.take(CHECKED_SIZE as int));
    if checksum != expected {
        return None;
    }
    let settings = Settings {
        melody_channel: bytes[12],
        drum_channel: bytes[13],
        octave: bytes[14] as i8,
        pitch_bend_range: bytes[15],
        melody_program: bytes[16],
        drum_program: bytes[17],
        vibrato_enabled: bytes[18] != 0,
    };
    if settings.melody_channel > 15 || settings.drum_channel > 15 || settings.octave < 2
        || settings.octave > 5 || settings.pitch_bend_range < 1 || settings.pitch_bend_range > 12
        || bytes[18] > 1 {
        return None;
    }
    Some(Record { generation: read_le(bytes, 8), settings })
}

/// Decoding an encoded record gives the record back exactly when its settings are in the
/// ranges a record accepts, and rejects it otherwise.
pub proof fn lemma_decode_encode(r: Record)
    ensures
        decoded(encoded(r)) == (if storable(r.settings) {
            Some(r)
        } else {
            None
        }),
{
    let b = encoded(r);
    let body = record_body(r);
    assert(b.take(CHECKED_SIZE as int) =~= body);
    assert(b.take(4) =~= MAGIC@);
    lemma_le_word_bytes(r.generation);
    lemma_le_word_bytes(crc32_spec(body));
    let o = r.settings.octave;
    assert((o as u8) as i8 == o) by (bit_vector);
    if decoded(b) is Some {
        assert(decoded(b).unwrap().settings == r.settings);
    }
}

/// A stored record with any one byte changed is rejected: a change in the first
/// `CHECKED_SIZE` bytes changes their CRC-32, and a change in the last four changes the
/// stored checksum.
pub proof fn lemma_single_byte_corruption_rejected(r: Record, corrupted: Seq<u8>, k: int)
    requires
        corrupted.len() == RECORD_SIZE,
        0 <= k < RECORD_SIZE,
        corrupted[k] != encoded(r)[k],
        forall|i: int| 0 <= i < RECORD_SIZE && i != k ==> corrupted[i] == encoded(r)[i],
    ensures
        decoded(corrupted) is None,
{
    let b = encoded(r);
    let body = record_body(r);
    assert(b.take(CHECKED_SIZE as int) =~= body);
    lemma_le_word_bytes(crc32_spec(body));
    if k < CHECKED_SIZE {
        lemma_crc32_detects_single_byte_change(
            b.take(CHECKED_SIZE as int),
            corrupted.take(CHECKED_SIZE as int),
            k,
        );
        assert(le_word_at(corrupted, 28) == le_word_at(b, 28));
    } else {
        assert(corrupted.take(CHECKED_SIZE as int) =~= b.take(CHECKED_SIZE as int));
        lemma_le_bytes_word(corrupted[28], corrupted[29], corrupted[30], corrupted[31]);
        if le_word_at(corrupted, 28) == crc32_spec(body) {
            assert(le_bytes(crc32_spec(body)) == seq![
                corrupted[28],
                corrupted[29],
                corrupted[30],
                corrupted[31],
            ]);
            assert(b[k] == le_bytes(crc32_spec(body))[k - 28]);
        }
    }
}

/// Every combination of settings the menu can produce (each item's display value within
/// the item's range) is stored and read back exactly, whatever the generation.
pub proof fn lemma_menu_settings_round_trip(generation: u32, s: Settings)
    requires
        forall|idx: int|
            0 <= idx < NUM_SETTINGS_ITEMS ==> item_min(idx) <= #[trigger] s.display_value(idx)
                <= item_max(idx),
    ensures
        decoded(encoded(Record { generation, settings: s })) == Some(
            Record { generation, settings: s },
        ),
{
    assert(item_min(0) <= s.display_value(0) <= item_max(0));
    assert(item_min(1) <= s.display_value(1) <= item_max(1));
    assert(item_min(2) <= s.display_value(2) <= item_max(2));
    assert(item_min(3) <= s.display_value(3) <= item_max(3));
    assert(s.melody_channel <= 15 && s.drum_channel <= 15);
    assert(2 <= s.octave <= 5 && 1 <= s.pitch_bend_range <= 12);
    lemma_decode_encode(Record { generation, settings: s });
}

/// Valid settings are stored and read back exactly, and load from a slot holding them
/// (the other slot unreadable) gives them back.
pub proof fn lemma_valid_settings_round_trip(generation: u32, s: Settings, bytes: [u8; RECORD_SIZE])
    requires
        s.valid(),
        bytes@ == encoded(Record { generation, settings: s }),
    ensures
        decoded(bytes@) == Some(Record { generation, settings: s }),
        load_spec(Some(bytes), None) == Some(s),
        load_spec(None, Some(bytes)) == Some(s),
{
    assert forall|idx: int| 0 <= idx < NUM_SETTINGS_ITEMS implies item_min(idx)
        <= #[trigger] s.display_value(idx) <= item_max(idx) by {
        assert(idx == 0 || idx == 1 || idx == 2 || idx == 3 || idx == 4 || idx == 5);
    }
    lemma_menu_settings_round_trip(generation, s);
}

// ── Choosing between the two slots ───────────────────────────────────────────

/// `b` was written after `a`: the wrapping distance from `a` to `b` is under half the range.
pub open spec fn is_newer_or_same(a: u32, b: u32) -> bool {
    (if b >= a {
        b - a
    } else {
        b - a + 0x1_0000_0000
    }) < 0x8000_0000
}

/// The newest of two decoded slots, with its slot number.
pub open spec fn newest_spec(a: Option<Record>, b: Option<Record>) -> Option<(usize, Record)> {
    match (a, b) {
        (Some(ra), Some(rb)) => if is_newer_or_same(ra.generation, rb.generation) {
            Some((1usize, rb))
        } else {
            Some((0usize, ra))
        },
        (Some(ra), None) => Some((0usize, ra)),
        (None, Some(rb)) => Some((1usize, rb)),
        (None, None) => None,
    }
}

/// Of two records whose generations are consecutive (modulo 2³²), the later one is the
/// newest, whichever slot holds it and across the wrap of the counter.
pub proof fn lemma_newest_of_consecutive(older: Record, newer: Record)
    requires
        newer.generation == (if older.generation == u32::MAX {
            0
        } else {
            older.generation + 1
        }),
    ensures
        newest_spec(Some(older), Some(newer)) == Some((1usize, newer)),
        newest_spec(Some(newer), Some(older)) == Some((0usize, newer)),
{
}

/// What a slot holds: its bytes, or `None` where it could not be read.
pub open spec fn slot_record(slot: Option<[u8; RECORD_SIZE]>) -> Option<Record> {
    match slot {
        Some(bytes) => decoded(bytes@),
        None => None,
    }
}

/// The record a slot holds, if it could be read and decodes.
pub fn read_slot(slot: &Option<[u8; RECORD_SIZE]>) -> (r: Option<Record>)
    ensures
        r == slot_record(*slot),
{
    match slot {
        Some(bytes) => decode(bytes),
        None => None,
    }
}

/// The newest valid record of the two slots, with its slot number.
pub fn newest_record(slot0: &Option<[u8; RECORD_SIZE]>, slot1: &Option<[u8; RECORD_SIZE]>) -> (r:
    Option<(usize, Record)>)
    ensures
        r == newest_spec(slot_record(*slot0), slot_record(*slot1)),
{
    let a = read_slot(slot0);
    let b = read_slot(slot1);
    match (a, b) {
        (Some(a), Some(b)) => {
            // Wrapping comparison is safe because the two generations can differ by only one.
            if b.generation.wrapping_sub(a.generation) < 0x8000_0000 {
                Some((1, b))
            } else {
                Some((0, a))
            }
        },
        (Some(a), None) => Some((0, a)),
        (None, Some(b)) => Some((1, b)),
        (None, None) => None,
    }
}

/// The settings of the newest valid record, or `None` for a fresh or corrupt flash.
pub open spec fn load_spec(slot0: Option<[u8; RECORD_SIZE]>, slot1: Option<[u8; RECORD_SIZE]>) -> Option<
    Settings,
> {
    match newest_spec(slot_record(slot0), slot_record(slot1)) {
        Some((_, r)) => Some(r.settings),
        None => None,
    }
}

/// Loads the newest valid settings record, or returns `None` for a fresh/corrupt flash.
/// `slot0` and `slot1` are the bytes read from the two slots (`None` where the read failed).
pub fn load(slot0: &Option<[u8; RECORD_SIZE]>, slot1: &Option<[u8; RECORD_SIZE]>) -> (s: Option<
    Settings,
>)
    ensures
        s == load_spec(*slot0, *slot1),
{
    match newest_record(slot0, slot1) {
        Some((_, record)) => Some(record.settings),
        None => None,
    }
}

/// One record to erase-and-program into flash.
pub struct FlashWrite {
    /// Slot number, 0 or 1.
    pub slot: usize,
    /// Start address of the slot's sector.
    pub address: u32,
    pub bytes: [u8; RECORD_SIZE],
}

/// The slot and the record that saving `settings` writes: the slot older than the
/// current valid record, with the next generation; slot 0 and generation 0 on a fresh flash.
pub open spec fn save_target(current: Option<(usize, Record)>) -> (usize, u32) {
    match current {
        Some((slot, r)) => (
            (1 - slot) as usize,
            (if r.generation == u32::MAX {
                0
            } else {
                r.generation + 1
            }) as u32,
        ),
        None => (0usize, 0u32),
    }
}

/// Plans an atomic save of `settings`: the record goes to the slot older than the current
/// valid record, so that the current one stays intact until the new one is complete.
pub fn save(slot0: &Option<[u8; RECORD_SIZE]>, slot1: &Option<[u8; RECORD_SIZE]>, settings: Settings) -> (w:
    FlashWrite)
    ensures
        ({
            let (slot, generation) = save_target(
                newest_spec(slot_record(*slot0), slot_record(*slot1)),
            );
            &&& w.slot == slot
            &&& w.address == SLOT_ADDRESSES@[slot as int]
            &&& w.bytes@ == encoded(Record { generation, settings })
        }),
{
    let (slot, generation) = match newest_record(slot0, slot1) {
        Some((current_slot, record)) => (1 - current_slot, record.generation.wrapping_add(1)),
        None => (0, 0),
    };
    let bytes = encode(Record { generation, settings });
    FlashWrite { slot, address: SLOT_ADDRESSES[slot], bytes }
}

/// `slots` with slot `which` replaced by `content`.
pub open spec fn replace_slot(
    slot0: Option<[u8; RECORD_SIZE]>,
    slot1: Option<[u8; RECORD_SIZE]>,
    which: usize,
    content: Option<[u8; RECORD_SIZE]>,
) -> (Option<[u8; RECORD_SIZE]>, Option<[u8; RECORD_SIZE]>) {
    if which == 0 {
        (content, slot1)
    } else {
        (slot0, content)
    }
}

/// Once the planned record is in flash, loading gives back the saved settings, whatever
/// the two slots held before.
pub proof fn lemma_load_after_save(
    slot0: Option<[u8; RECORD_SIZE]>,
    slot1: Option<[u8; RECORD_SIZE]>,
    settings: Settings,
    written: [u8; RECORD_SIZE],
)
    requires
        storable(settings),
        written@ == encoded(
            Record {
                generation: save_target(newest_spec(slot_record(slot0), slot_record(slot1))).1,
                settings,
            },
        ),
    ensures
        ({
            let slot = save_target(newest_spec(slot_record(slot0), slot_record(slot1))).0;
            let after = replace_slot(slot0, slot1, slot, Some(written));
            load_spec(after.0, after.1) == Some(settings)
        }),
{
    let (slot, generation) = save_target(newest_spec(slot_record(slot0), slot_record(slot1)));
    lemma_decode_encode(Record { generation, settings });
}

/// A save writes only to the slot that does not hold the newest valid record. So whatever a
/// failed or interrupted save leaves in that slot, loading still finds settings: the
/// previous ones, unless the written slot passes every check of a record and is chosen as
/// the newer one, in which case its settings. A slot left as it was keeps the previous
/// settings.
pub proof fn lemma_failed_save_keeps_a_record(
    slot0: Option<[u8; RECORD_SIZE]>,
    slot1: Option<[u8; RECORD_SIZE]>,
    partial: Option<[u8; RECORD_SIZE]>,
)
    requires
        load_spec(slot0, slot1) is Some,
    ensures
        ({
            let current = newest_spec(slot_record(slot0), slot_record(slot1));
            let slot = save_target(current).0;
            let after = replace_slot(slot0, slot1, slot, partial);
            &&& slot != current.unwrap().0
            &&& load_spec(after.0, after.1) is Some
            &&& load_spec(after.0, after.1) == load_spec(slot0, slot1) || (slot_record(
                partial,
            ) is Some && load_spec(after.0, after.1) == Some(
                slot_record(partial).unwrap().settings,
            ))
            &&& partial == (if slot == 0 {
                slot0
            } else {
                slot1
            }) ==> load_spec(after.0, after.1) == load_spec(slot0, slot1)
        }),
{
}

/// A save that is cut short leaves the slot it was writing unreadable; loading then still
/// gives the settings that were current before the save.
pub proof fn lemma_interrupted_save_keeps_previous(
    slot0: Option<[u8; RECORD_SIZE]>,
    slot1: Option<[u8; RECORD_SIZE]>,
    partial: Option<[u8; RECORD_SIZE]>,
)
    requires
        slot_record(partial) is None,
    ensures
        ({
            let slot = save_target(newest_spec(slot_record(slot0), slot_record(slot1))).0;
            let after = replace_slot(slot0, slot1, slot, partial);
            load_spec(after.0, after.1) == load_spec(slot0, slot1)
        }),
{
}


/// A save whose record reaches flash with one byte wrong leaves the previous settings in
/// force.
pub proof fn lemma_save_with_one_bad_byte_keeps_previous(
    slot0: Option<[u8; RECORD_SIZE]>,
    slot1: Option<[u8; RECORD_SIZE]>,
    settings: Settings,
    written: [u8; RECORD_SIZE],
    k: int,
)
    requires
        0 <= k < RECORD_SIZE,
        ({
            let planned = encoded(
                Record {
                    generation: save_target(newest_spec(slot_record(slot0), slot_record(slot1))).1,
                    settings,
                },
            );
            &&& written@[k] != planned[k]
            &&& forall|i: int| 0 <= i < RECORD_SIZE && i != k ==> written@[i] == planned[i]
        }),
    ensures
        ({
            let slot = save_target(newest_spec(slot_record(slot0), slot_record(slot1))).0;
            let after = replace_slot(slot0, slot1, slot, Some(written));
            load_spec(after.0, after.1) == load_spec(slot0, slot1)
        }),
{
    let generation = save_target(newest_spec(slot_record(slot0), slot_record(slot1))).1;
    lemma_single_byte_corruption_rejected(Record { generation, settings }, written@, k);
    lemma_interrupted_save_keeps_previous(slot0, slot1, Some(written));
}

} // verus!
