//! Boot calibration: averaging the resting reading of every multiplexer channel into the
//! baseline that switch deflections are measured from.
use vstd::prelude::*;

use crate::constants::{MUX_CHANNELS, NUM_ADC_PINS, NUM_MUXES, NUM_SWITCHES, SWITCH_MAP};
use crate::switch::ChannelFilter;

verus! {

/// Samples one channel can take before its running sum could leave `u32`.
pub const MAX_SAMPLES_PER_CHANNEL: u32 = 65536;

/// Running sums and sample counts of every multiplexer channel.
pub struct Calibration {
    sums: [[u32; MUX_CHANNELS]; NUM_MUXES],
    counts: [[u32; MUX_CHANNELS]; NUM_MUXES],
}

/// The mean of `count` samples summing to `total`, rounded down; 0 before any sample.
pub open spec fn mean_spec(total: int, count: int) -> int {
    if count == 0 {
        0
    } else {
        total / count
    }
}

impl Calibration {
    #[verifier::type_invariant]
    spec fn inv(self) -> bool {
        forall|m: int, c: int|
            0 <= m < NUM_MUXES && 0 <= c < MUX_CHANNELS ==> {
                &&& #[trigger] self.counts@[m]@[c] <= MAX_SAMPLES_PER_CHANNEL
                &&& self.sums@[m]@[c] <= self.counts@[m]@[c] * 65535
            }
    }

    /// Sum of the samples taken on channel `c` of mux `m`.
    pub closed spec fn total(self, m: int, c: int) -> int {
        self.sums@[m]@[c] as int
    }

    /// Number of samples taken on channel `c` of mux `m`.
    pub closed spec fn count(self, m: int, c: int) -> int {
        self.counts@[m]@[c] as int
    }

    pub fn new() -> (cal: Self)
        ensures
            forall|m: int, c: int|
                0 <= m < NUM_MUXES && 0 <= c < MUX_CHANNELS ==> #[trigger] cal.total(m, c) == 0
                    && cal.count(m, c) == 0,
    {
        let row: [u32; MUX_CHANNELS] = [0, 0, 0, 0, 0, 0, 0, 0];
        let table: [[u32; MUX_CHANNELS]; NUM_MUXES] = [
            row, row, row, row, row, row, row, row, row, row, row, row, row,
        ];
        Calibration { sums: table, counts: table }
    }

    /// Adds one reading of channel `ch` of mux `mux`.
    pub fn add_sample(&mut self, mux: usize, ch: usize, value: u16)
        requires
            mux < NUM_MUXES,
            ch < MUX_CHANNELS,
            old(self).count(mux as int, ch as int) < MAX_SAMPLES_PER_CHANNEL,
        ensures
            final(self).total(mux as int, ch as int) == old(self).total(mux as int, ch as int)
                + value,
            final(self).count(mux as int, ch as int) == old(self).count(mux as int, ch as int) + 1,
            forall|m: int, c: int|
                0 <= m < NUM_MUXES && 0 <= c < MUX_CHANNELS && (m != mux || c != ch)
                    ==> #[trigger] final(self).total(m, c) == old(self).total(m, c)
                    && final(self).count(m, c) == old(self).count(m, c),
    {
        proof {
            use_type_invariant(&*self);
        }
        let mut counts = self.counts;
        let mut sums = self.sums;
        let mut count_row = counts[mux];
        count_row[ch] = count_row[ch] + 1;
        counts[mux] = count_row;
        let mut sum_row = sums[mux];
        sum_row[ch] = sum_row[ch] + value as u32;
        sums[mux] = sum_row;
        *self = Calibration { sums, counts };
    }

    /// Adds one reading of every directly wired mux (AM1–AM9), all on channel `ch`.
    pub fn add_readings(&mut self, ch: usize, readings: &[u16; NUM_ADC_PINS])
        requires
            ch < MUX_CHANNELS,
            forall|m: int|
                0 <= m < NUM_ADC_PINS ==> #[trigger] old(self).count(m, ch as int)
                    < MAX_SAMPLES_PER_CHANNEL,
        ensures
            forall|m: int|
                0 <= m < NUM_ADC_PINS ==> #[trigger] final(self).total(m, ch as int)
                    == old(self).total(m, ch as int) + readings@[m]
                    && final(self).count(m, ch as int) == old(self).count(m, ch as int) + 1,
            forall|m: int, c: int|
                0 <= m < NUM_MUXES && 0 <= c < MUX_CHANNELS && !(m < NUM_ADC_PINS && c == ch)
                    ==> #[trigger] final(self).total(m, c) == old(self).total(m, c)
                    && final(self).count(m, c) == old(self).count(m, c),
    {
        let ghost start = *self;
        let mut mux: usize = 0;
        while mux < NUM_ADC_PINS
            invariant
                ch < MUX_CHANNELS,
                mux <= NUM_ADC_PINS,
                forall|m: int|
                    0 <= m < NUM_ADC_PINS ==> #[trigger] start.count(m, ch as int)
                        < MAX_SAMPLES_PER_CHANNEL,
                forall|m: int|
                    0 <= m < mux ==> #[trigger] self.total(m, ch as int) == start.total(m, ch as int)
                        + readings@[m] && self.count(m, ch as int) == start.count(m, ch as int) + 1,
                forall|m: int, c: int|
                    0 <= m < NUM_MUXES && 0 <= c < MUX_CHANNELS && !(m < mux && c == ch)
                        ==> #[trigger] self.total(m, c) == start.total(m, c) && self.count(m, c)
                        == start.count(m, c),
            decreases NUM_ADC_PINS - mux,
        {
            assert(self.total(mux as int, ch as int) == start.total(mux as int, ch as int));
            self.add_sample(mux, ch, readings[mux]);
            mux += 1;
        }
    }

    /// Mean reading of channel `ch` of mux `mux` (0 before any sample).
    pub fn mean(&self, mux: usize, ch: usize) -> (avg: u16)
        requires
            mux < NUM_MUXES,
            ch < MUX_CHANNELS,
        ensures
            avg == mean_spec(self.total(mux as int, ch as int), self.count(mux as int, ch as int)),
    {
        proof {
            use_type_invariant(self);
        }
        let sum = self.sums[mux][ch];
        let count = self.counts[mux][ch];
        if count == 0 {
            0
        } else {
            assert(sum / count <= 65535) by (nonlinear_arith)
                requires
                    sum <= count * 65535,
                    count > 0,
            ;
            (sum / count) as u16
        }
    }

    /// Baseline of every switch: the mean of the channel it is wired to.
    pub fn baselines(&self) -> (b: [u16; NUM_SWITCHES])
        ensures
            forall|i: int|
                0 <= i < NUM_SWITCHES ==> #[trigger] b@[i] == mean_spec(
                    self.total(SWITCH_MAP@[i].0 as int, SWITCH_MAP@[i].1 as int),
                    self.count(SWITCH_MAP@[i].0 as int, SWITCH_MAP@[i].1 as int),
                ),
    {
        proof {
            crate::constants::lemma_switch_map_in_range();
        }
        let mut b: [u16; NUM_SWITCHES] = [0; NUM_SWITCHES];
        let mut i: usize = 0;
        while i < NUM_SWITCHES
            invariant
                i <= NUM_SWITCHES,
                forall|j: int|
                    0 <= j < NUM_SWITCHES ==> (#[trigger] SWITCH_MAP@[j]).0 < NUM_MUXES
                        && SWITCH_MAP@[j].1 < MUX_CHANNELS,
                forall|j: int|
                    0 <= j < i ==> #[trigger] b@[j] == mean_spec(
                        self.total(SWITCH_MAP@[j].0 as int, SWITCH_MAP@[j].1 as int),
                        self.count(SWITCH_MAP@[j].0 as int, SWITCH_MAP@[j].1 as int),
                    ),
            decreases NUM_SWITCHES - i,
        {
            let (mux, ch) = SWITCH_MAP[i];
            b[i] = self.mean(mux as usize, ch as usize);
            i += 1;
        }
        b
    }
}

/// One filter per switch, each primed with the switch's baseline.
pub fn primed_filters(baselines: &[u16; NUM_SWITCHES]) -> (filters: [ChannelFilter; NUM_SWITCHES])
    ensures
        forall|i: int|
            0 <= i < NUM_SWITCHES ==> (#[trigger] filters@[i]).window() == seq![
                baselines@[i],
                baselines@[i],
                baselines@[i],
                baselines@[i],
            ],
{
    let mut filters = [ChannelFilter::new(); NUM_SWITCHES];
    let mut i: usize = 0;
    while i < NUM_SWITCHES
        invariant
            i <= NUM_SWITCHES,
            forall|j: int|
                0 <= j < i ==> (#[trigger] filters@[j]).window() == seq![
                    baselines@[j],
                    baselines@[j],
                    baselines@[j],
                    baselines@[j],
                ],
        decreases NUM_SWITCHES - i,
    {
        let mut f = filters[i];
        f.prime(baselines[i]);
        filters[i] = f;
        i += 1;
    }
    filters
}

} // verus!
