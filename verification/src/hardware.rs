//! Pin levels for the multiplexer address lines and the 74HC138 decoder, the mapping of
//! decoder outputs to multiplexers, and the I²C bus-recovery sequence.
use vstd::prelude::*;

use crate::constants::NUM_ADC_PINS;

verus! {

/// Core clock cycles per microsecond (480 MHz).
pub const CYCLES_PER_US: u32 = 480;
/// Decoder outputs that enable the switch multiplexers AM10–AM13.
pub const NUM_DECODED_MUXES: u8 = 4;

/// 2 to the `k`.
pub open spec fn pow2_spec(k: nat) -> int
    decreases k,
{
    if k == 0 {
        1
    } else {
        2 * pow2_spec((k - 1) as nat)
    }
}

/// Bit `k` of the non-negative number `x`.
pub open spec fn bit(x: int, k: nat) -> bool {
    (x / pow2_spec(k)) % 2 == 1
}

proof fn lemma_low_powers()
    ensures
        pow2_spec(0) == 1,
        pow2_spec(1) == 2,
        pow2_spec(2) == 4,
{
    reveal_with_fuel(pow2_spec, 3);
}

/// Levels of the three mux select lines (S0, S1, S2) for channel `ch`: its low three bits.
pub fn mux_channel_levels(ch: usize) -> (levels: [bool; 3])
    ensures
        levels@ == seq![bit(ch as int, 0), bit(ch as int, 1), bit(ch as int, 2)],
{
    proof {
        lemma_low_powers();
    }
    assert((ch & 1 != 0) == (ch % 2 == 1)) by (bit_vector);
    assert((ch & 2 != 0) == ((ch / 2) % 2 == 1)) by (bit_vector);
    assert((ch & 4 != 0) == ((ch / 4) % 2 == 1)) by (bit_vector);
    let levels = [ch & 0b001 != 0, ch & 0b010 != 0, ch & 0b100 != 0];
    assert(levels@ =~= seq![bit(ch as int, 0), bit(ch as int, 1), bit(ch as int, 2)]);
    levels
}

/// Levels of the decoder address lines (A0 = ENB_A, A1 = ENB_B, A2 = ENB_C) for output
/// `idx`, its low three bits: 0–3 = AM10–AM13 (switches), 4–5 = AM14–AM15 (pots).
pub fn decoder_levels(idx: u8) -> (levels: [bool; 3])
    ensures
        levels@ == seq![bit(idx as int, 0), bit(idx as int, 1), bit(idx as int, 2)],
{
    proof {
        lemma_low_powers();
    }
    assert((idx & 1 != 0) == (idx % 2 == 1)) by (bit_vector);
    assert((idx & 2 != 0) == ((idx / 2) % 2 == 1)) by (bit_vector);
    assert((idx & 4 != 0) == ((idx / 4) % 2 == 1)) by (bit_vector);
    let levels = [idx & 0b001 != 0, idx & 0b010 != 0, idx & 0b100 != 0];
    assert(levels@ =~= seq![bit(idx as int, 0), bit(idx as int, 1), bit(idx as int, 2)]);
    levels
}

/// Three address lines select exactly the channel they encode.
pub proof fn lemma_address_levels_encode(x: int)
    requires
        0 <= x < 8,
    ensures
        x == (if bit(x, 0) {
            1int
        } else {
            0
        }) + (if bit(x, 1) {
            2int
        } else {
            0
        }) + (if bit(x, 2) {
            4int
        } else {
            0
        }),
{
    lemma_low_powers();
}

/// The mux index (9–12 = AM10–AM13) that decoder output `idx` enables.
pub fn decoded_mux(idx: u8) -> (mux: usize)
    requires
        idx < NUM_DECODED_MUXES,
    ensures
        mux == NUM_ADC_PINS + idx,
{
    NUM_ADC_PINS + idx as usize
}

/// Whether decoder output `idx` is read on A9 (AM10, AM11) rather than A10 (AM12, AM13).
pub fn decoded_mux_on_a9(idx: u8) -> (on_a9: bool)
    ensures
        on_a9 == (idx < 2),
{
    idx < 2
}

/// An ADC conversion result as a 16-bit reading; a failed conversion reads 0.
pub fn adc_reading(result: Option<u32>) -> (r: u16)
    ensures
        r == match result {
            Some(v) => (v % 0x1_0000) as u16,
            None => 0u16,
        },
{
    match result {
        Some(v) => {
            assert(v as u16 == (v % 0x1_0000) as u16) by (bit_vector);
            v as u16
        },
        None => 0,
    }
}

// ── I²C bus recovery ─────────────────────────────────────────────────────────

/// One step of driving the I²C lines as GPIO.
#[derive(Clone, Copy, Debug, PartialEq, Eq, Structural)]
pub enum BusStep {
    /// Drive SCL high (`true`) or low.
    Scl(bool),
    /// Drive SDA high (`true`) or low.
    Sda(bool),
    /// Busy-wait this many core cycles.
    Delay(u32),
}

/// `n` clock pulses: SCL low, wait 5 µs, SCL high, wait 5 µs.
pub open spec fn clock_pulses(n: nat) -> Seq<BusStep>
    decreases n,
{
    if n == 0 {
        Seq::empty()
    } else {
        clock_pulses((n - 1) as nat) + seq![
            BusStep::Scl(false),
            BusStep::Delay(2400),
            BusStep::Scl(true),
            BusStep::Delay(2400),
        ]
    }
}

/// Release both lines and wait 10 µs, pulse SCL nine times so that any device holding SDA
/// low finishes its byte, then send a STOP condition (SDA rises while SCL is high).
pub open spec fn recovery_sequence() -> Seq<BusStep> {
    seq![BusStep::Scl(true), BusStep::Sda(true), BusStep::Delay(4800)] + clock_pulses(9) + seq![
        BusStep::Scl(false),
        BusStep::Delay(2400),
        BusStep::Sda(false),
        BusStep::Delay(2400),
        BusStep::Scl(true),
        BusStep::Delay(2400),
        BusStep::Sda(true),
        BusStep::Delay(4800),
    ]
}

/// The steps that free an I²C bus whose SDA a device holds low after a reset. Run them on
/// the pins as GPIO before handing the pins to the I²C peripheral.
pub fn i2c_recovery_steps() -> (steps: Vec<BusStep>)
    ensures
        steps@ == recovery_sequence(),
{
    let mut steps: Vec<BusStep> = Vec::new();
    steps.push(BusStep::Scl(true));
    steps.push(BusStep::Sda(true));
    steps.push(BusStep::Delay(CYCLES_PER_US * 10));
    let ghost prefix = steps@;
    let mut i: usize = 0;
    while i < 9
        invariant
            i <= 9,
            steps@ == prefix + clock_pulses(i as nat),
        decreases 9 - i,
    {
        steps.push(BusStep::Scl(false));
        steps.push(BusStep::Delay(CYCLES_PER_US * 5));
        steps.push(BusStep::Scl(true));
        steps.push(BusStep::Delay(CYCLES_PER_US * 5));
        i += 1;
        assert(steps@ =~= prefix + clock_pulses(i as nat));
    }
    // STOP condition: SDA rises while SCL is high.
    steps.push(BusStep::Scl(false));
    steps.push(BusStep::Delay(CYCLES_PER_US * 5));
    steps.push(BusStep::Sda(false));
    steps.push(BusStep::Delay(CYCLES_PER_US * 5));
    steps.push(BusStep::Scl(true));
    steps.push(BusStep::Delay(CYCLES_PER_US * 5));
    steps.push(BusStep::Sda(true));
    steps.push(BusStep::Delay(CYCLES_PER_US * 10));
    assert(steps@ =~= recovery_sequence());
    steps
}

/// The levels of (SCL, SDA) after running `steps` from (`scl`, `sda`).
pub open spec fn bus_levels(scl: bool, sda: bool, steps: Seq<BusStep>) -> (bool, bool)
    decreases steps.len(),
{
    if steps.len() == 0 {
        (scl, sda)
    } else {
        let (c, d) = bus_levels(scl, sda, steps.drop_last());
        match steps.last() {
            BusStep::Scl(l) => (l, d),
            BusStep::Sda(l) => (c, l),
            BusStep::Delay(_) => (c, d),
        }
    }
}

/// Number of rising SCL edges while SDA is high, running `steps` from (`scl`, `sda`).
pub open spec fn clock_edges_sda_high(scl: bool, sda: bool, steps: Seq<BusStep>) -> nat
    decreases steps.len(),
{
    if steps.len() == 0 {
        0
    } else {
        let (c, d) = bus_levels(scl, sda, steps.drop_last());
        let prev = clock_edges_sda_high(scl, sda, steps.drop_last());
        match steps.last() {
            BusStep::Scl(true) => if !c && d {
                prev + 1
            } else {
                prev
            },
            _ => prev,
        }
    }
}

/// The levels after one more step.
pub open spec fn apply_step(levels: (bool, bool), step: BusStep) -> (bool, bool) {
    match step {
        BusStep::Scl(l) => (l, levels.1),
        BusStep::Sda(l) => (levels.0, l),
        BusStep::Delay(_) => levels,
    }
}

proof fn lemma_push_step(scl: bool, sda: bool, p: Seq<BusStep>, step: BusStep)
    ensures
        bus_levels(scl, sda, p.push(step)) == apply_step(bus_levels(scl, sda, p), step),
        clock_edges_sda_high(scl, sda, p.push(step)) == clock_edges_sda_high(scl, sda, p) + (
        if step == BusStep::Scl(true) && !bus_levels(scl, sda, p).0 && bus_levels(scl, sda, p).1 {
            1nat
        } else {
            0nat
        }),
{
    assert(p.push(step).drop_last() =~= p);
}

proof fn lemma_clock_pulses(n: nat, prefix: Seq<BusStep>, scl: bool, sda: bool)
    requires
        bus_levels(scl, sda, prefix) == (true, true),
    ensures
        bus_levels(scl, sda, prefix + clock_pulses(n)) == (true, true),
        clock_edges_sda_high(scl, sda, prefix + clock_pulses(n)) == clock_edges_sda_high(
            scl,
            sda,
            prefix,
        ) + n,
    decreases n,
{
    if n > 0 {
        lemma_clock_pulses((n - 1) as nat, prefix, scl, sda);
        let p0 = prefix + clock_pulses((n - 1) as nat);
        let p1 = p0.push(BusStep::Scl(false));
        let p2 = p1.push(BusStep::Delay(2400));
        let p3 = p2.push(BusStep::Scl(true));
        let p4 = p3.push(BusStep::Delay(2400));
        lemma_push_step(scl, sda, p0, BusStep::Scl(false));
        lemma_push_step(scl, sda, p1, BusStep::Delay(2400));
        lemma_push_step(scl, sda, p2, BusStep::Scl(true));
        lemma_push_step(scl, sda, p3, BusStep::Delay(2400));
        assert(prefix + clock_pulses(n) =~= p4);
    }
}

/// Whatever state the lines start in, the recovery sequence clocks SCL nine times with SDA
/// released and leaves both lines high (bus idle) after a STOP condition: SDA's last edge
/// is a rise while SCL is high.
pub proof fn lemma_recovery_sequence(scl: bool, sda: bool)
    ensures
        bus_levels(scl, sda, recovery_sequence()) == (true, true),
        clock_edges_sda_high(scl, sda, recovery_sequence()) >= 9,
        ({
            let s = recovery_sequence();
            let n = s.len();
            &&& s[n - 2] == BusStep::Sda(true)
            &&& bus_levels(scl, sda, s.take(n - 2)) == (true, false)
        }),
{
    let e = Seq::<BusStep>::empty();
    let h1 = e.push(BusStep::Scl(true));
    let h2 = h1.push(BusStep::Sda(true));
    let h3 = h2.push(BusStep::Delay(4800));
    lemma_push_step(scl, sda, e, BusStep::Scl(true));
    lemma_push_step(scl, sda, h1, BusStep::Sda(true));
    lemma_push_step(scl, sda, h2, BusStep::Delay(4800));
    assert(h3 =~= seq![BusStep::Scl(true), BusStep::Sda(true), BusStep::Delay(4800)]);
    lemma_clock_pulses(9, h3, scl, sda);
    let m0 = h3 + clock_pulses(9);
    let m1 = m0.push(BusStep::Scl(false));
    let m2 = m1.push(BusStep::Delay(2400));
    let m3 = m2.push(BusStep::Sda(false));
    let m4 = m3.push(BusStep::Delay(2400));
    let m5 = m4.push(BusStep::Scl(true));
    let m6 = m5.push(BusStep::Delay(2400));
    let m7 = m6.push(BusStep::Sda(true));
    let m8 = m7.push(BusStep::Delay(4800));
    lemma_push_step(scl, sda, m0, BusStep::Scl(false));
    lemma_push_step(scl, sda, m1, BusStep::Delay(2400));
    lemma_push_step(scl, sda, m2, BusStep::Sda(false));
    lemma_push_step(scl, sda, m3, BusStep::Delay(2400));
    lemma_push_step(scl, sda, m4, BusStep::Scl(true));
    lemma_push_step(scl, sda, m5, BusStep::Delay(2400));
    lemma_push_step(scl, sda, m6, BusStep::Sda(true));
    lemma_push_step(scl, sda, m7, BusStep::Delay(4800));
    let s = recovery_sequence();
    assert(s =~= m8);
    assert(s.take(s.len() - 2) =~= m6);
}

} // verus!
