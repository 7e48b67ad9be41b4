use vstd::prelude::*;

use crate::constants::{
    DEBOUNCE_TICKS, FILTER_SHIFT, FILTER_SIZE, FIRST_DELTA, RELEASE_DELTA, SECOND_DELTA,
    VELOCITY_WINDOW_MS,
};

verus! {

/// `|a - b|` for two readings.
pub open spec fn abs_diff_spec(a: u16, b: u16) -> u16 {
    if a >= b {
        (a - b) as u16
    } else {
        (b - a) as u16
    }
}

/// Absolute difference of two 16-bit readings.
pub fn abs_diff_u16(a: u16, b: u16) -> (d: u16)
    ensures
        d == abs_diff_spec(a, b),
{
    if a >= b {
        a - b
    } else {
        b - a
    }
}

/// Floor of the mean of the four samples in `w`.
pub open spec fn window_average(w: Seq<u16>) -> int {
    (w[0] + w[1] + w[2] + w[3]) / 4
}

// ── 4-sample ring-buffer averaging filter ────────────────────────────────────

/// Moving average over the last `FILTER_SIZE` samples of one ADC channel.
#[derive(Clone, Copy)]
pub struct ChannelFilter {
    ring: [u16; FILTER_SIZE],
    index: usize,
    sum: u32,
}

impl ChannelFilter {
    #[verifier::type_invariant]
    spec fn inv(self) -> bool {
        &&& self.index < FILTER_SIZE
        &&& self.sum == self.ring@[0] + self.ring@[1] + self.ring@[2] + self.ring@[3]
    }

    /// The samples the filter averages, oldest first.
    pub closed spec fn window(self) -> Seq<u16> {
        seq![
            self.ring@[self.index as int],
            self.ring@[((self.index + 1) % 4) as int],
            self.ring@[((self.index + 2) % 4) as int],
            self.ring@[((self.index + 3) % 4) as int],
        ]
    }

    pub fn new() -> (f: Self)
        ensures
            f.window() == seq![0u16, 0u16, 0u16, 0u16],
    {
        Self { ring: [0; FILTER_SIZE], index: 0, sum: 0 }
    }

    /// Pushes `raw` into the window, dropping the oldest sample, and returns the new average.
    pub fn feed(&mut self, raw: u16) -> (out: u16)
        ensures
            final(self).window() == old(self).window().drop_first().push(raw),
            out == window_average(final(self).window()),
    {
        proof {
            use_type_invariant(&*self);
        }
        let i = self.index;
        let mut ring = self.ring;
        let sum = self.sum - ring[i] as u32 + raw as u32;
        ring[i] = raw;
        let index = (i + 1) % FILTER_SIZE;
        *self = ChannelFilter { ring, index, sum };
        assert(sum >> 2u32 == sum / 4) by (bit_vector);
        assert(self.window() =~= old(self).window().drop_first().push(raw));
        (sum >> FILTER_SHIFT) as u16
    }

    /// Fills the whole window with `value`.
    pub fn prime(&mut self, value: u16)
        ensures
            final(self).window() == seq![value, value, value, value],
    {
        let ring = [value, value, value, value];
        let n = FILTER_SIZE as u32;
        assert(n == 4);
        let sum = value as u32 * n;
        assert(ring@ =~= seq![value, value, value, value]);
        assert(sum == value + value + value + value);
        *self = ChannelFilter { ring, index: 0, sum };
        assert(self.window() =~= seq![value, value, value, value]);
    }

    /// Returns the current averaged output without feeding a new sample.
    pub fn last_output(&self) -> (out: u16)
        ensures
            out == window_average(self.window()),
    {
        proof {
            use_type_invariant(self);
        }
        let sum = self.sum;
        assert(sum >> 2u32 == sum / 4) by (bit_vector);
        (sum >> FILTER_SHIFT) as u16
    }
}

// ── Switch state machine ─────────────────────────────────────────────────────

#[derive(Clone, Copy, Debug, PartialEq, Eq, Structural)]
pub enum SwitchPhase {
    Idle,
    FirstActuated { tick: u32 },
    FullyActuated { velocity: u8 },
}

#[allow(inconsistent_fields)]
#[derive(Clone, Copy, Debug, PartialEq, Eq, Structural)]
pub enum SwitchEvent {
    NoteOn { velocity: u8 },
    NoteOff,
    PotChange { cc: u8, value: u8 },
    PitchBend { value: u16 },
}

/// `count + 1`, saturating at `u8::MAX`.
pub open spec fn saturating_inc(count: u8) -> u8 {
    if count == u8::MAX {
        u8::MAX
    } else {
        (count + 1) as u8
    }
}

/// Note-on velocity after `elapsed` ms between the first and the second actuation point:
/// 127 for an instant stroke, falling linearly to 1 at `VELOCITY_WINDOW_MS` and beyond.
pub open spec fn velocity_for(elapsed: u32) -> u8 {
    if elapsed == 0 {
        127
    } else if elapsed >= VELOCITY_WINDOW_MS {
        1
    } else {
        let v = 128 - (elapsed * 126) / (VELOCITY_WINDOW_MS as int);
        if v > 127 {
            127
        } else {
            v as u8
        }
    }
}

/// One sample of the switch state machine: from `phase` with `count` consecutive
/// qualifying samples, a sample at distance `delta` from the baseline, taken at `tick`,
/// gives the next phase, the next count and the event emitted.
pub open spec fn switch_step(phase: SwitchPhase, count: u8, delta: u16, tick: u32) -> (
    SwitchPhase,
    u8,
    Option<SwitchEvent>,
) {
    match phase {
        SwitchPhase::Idle => {
            if delta >= FIRST_DELTA {
                let c = saturating_inc(count);
                if c >= DEBOUNCE_TICKS {
                    (SwitchPhase::FirstActuated { tick }, 0, None)
                } else {
                    (SwitchPhase::Idle, c, None)
                }
            } else {
                (SwitchPhase::Idle, 0, None)
            }
        },
        SwitchPhase::FirstActuated { tick: t1 } => {
            if delta >= SECOND_DELTA {
                let c = saturating_inc(count);
                if c >= DEBOUNCE_TICKS {
                    let elapsed: u32 = if tick >= t1 {
                        (tick - t1) as u32
                    } else {
                        0
                    };
                    let velocity = velocity_for(elapsed);
                    (
                        SwitchPhase::FullyActuated { velocity },
                        0,
                        Some(SwitchEvent::NoteOn { velocity }),
                    )
                } else {
                    (phase, c, None)
                }
            } else if delta < RELEASE_DELTA {
                let c = saturating_inc(count);
                if c >= DEBOUNCE_TICKS {
                    (SwitchPhase::Idle, 0, None)
                } else {
                    (phase, c, None)
                }
            } else {
                (phase, 0, None)
            }
        },
        SwitchPhase::FullyActuated { .. } => {
            if delta < RELEASE_DELTA {
                let c = saturating_inc(count);
                if c >= DEBOUNCE_TICKS {
                    (SwitchPhase::Idle, 0, Some(SwitchEvent::NoteOff))
                } else {
                    (phase, c, None)
                }
            } else {
                (phase, 0, None)
            }
        },
    }
}

/// Debounced two-threshold state machine of one hall-effect switch.
#[derive(Clone, Copy)]
pub struct SwitchState {
    phase: SwitchPhase,
    pub last_adc: u16,
    debounce_count: u8,
}

impl SwitchState {
    /// The current phase of the stroke.
    pub closed spec fn phase_spec(self) -> SwitchPhase {
        self.phase
    }

    /// The last reading fed to the switch.
    pub closed spec fn last_adc_spec(self) -> u16 {
        self.last_adc
    }

    /// Consecutive samples seen so far towards the next transition.
    pub closed spec fn count_spec(self) -> u8 {
        self.debounce_count
    }

    pub fn new() -> (s: Self)
        ensures
            s.phase_spec() == SwitchPhase::Idle,
            s.count_spec() == 0,
            s.last_adc_spec() == 0,
    {
        Self { phase: SwitchPhase::Idle, last_adc: 0, debounce_count: 0 }
    }

    /// The current phase of the stroke.
    pub fn phase(&self) -> (p: SwitchPhase)
        ensures
            p == self.phase_spec(),
    {
        self.phase
    }

    /// Feeds one filtered reading; `switch_idx` only names the switch.
    pub fn update(&mut self, adc_value: u16, baseline: u16, tick: u32, switch_idx: usize) -> (ev:
        Option<SwitchEvent>)
        ensures
            final(self).last_adc_spec() == adc_value,
            (final(self).phase_spec(), final(self).count_spec(), ev) == switch_step(
                old(self).phase_spec(),
                old(self).count_spec(),
                abs_diff_spec(adc_value, baseline),
                tick,
            ),
    {
        self.last_adc = adc_value;
        // Absolute delta — detects press in either direction (north or south pole).
        let delta = abs_diff_u16(adc_value, baseline);

        match self.phase {
            SwitchPhase::Idle => {
                if delta >= FIRST_DELTA {
                    self.debounce_count = self.debounce_count.saturating_add(1);
                    if self.debounce_count >= DEBOUNCE_TICKS {
                        self.phase = SwitchPhase::FirstActuated { tick };
                        self.debounce_count = 0;
                    }
                } else {
                    self.debounce_count = 0;
                }
                None
            },
            SwitchPhase::FirstActuated { tick: t1 } => {
                if delta >= SECOND_DELTA {
                    self.debounce_count = self.debounce_count.saturating_add(1);
                    if self.debounce_count >= DEBOUNCE_TICKS {
                        let elapsed = tick.saturating_sub(t1);
                        let velocity = velocity_of_elapsed(elapsed);
                        self.phase = SwitchPhase::FullyActuated { velocity };
                        self.debounce_count = 0;
                        Some(SwitchEvent::NoteOn { velocity })
                    } else {
                        None
                    }
                } else if delta < RELEASE_DELTA {
                    self.debounce_count = self.debounce_count.saturating_add(1);
                    if self.debounce_count >= DEBOUNCE_TICKS {
                        self.phase = SwitchPhase::Idle;
                        self.debounce_count = 0;
                    }
                    None
                } else {
                    self.debounce_count = 0;
                    None
                }
            },
            SwitchPhase::FullyActuated { .. } => {
                if delta < RELEASE_DELTA {
                    self.debounce_count = self.debounce_count.saturating_add(1);
                    if self.debounce_count >= DEBOUNCE_TICKS {
                        self.phase = SwitchPhase::Idle;
                        self.debounce_count = 0;
                        Some(SwitchEvent::NoteOff)
                    } else {
                        None
                    }
                } else {
                    self.debounce_count = 0;
                    None
                }
            },
        }
    }
}

/// Note-on velocity for `elapsed` ms between the two actuation points.
pub fn velocity_of_elapsed(elapsed: u32) -> (v: u8)
    ensures
        v == velocity_for(elapsed),
{
    if elapsed == 0 {
        127u8
    } else if elapsed >= VELOCITY_WINDOW_MS {
        1u8
    } else {
        assert(elapsed * 126 < 80 * 126) by (nonlinear_arith)
            requires
                elapsed < 80,
        ;
        let v = 127u32.saturating_sub((elapsed * 126) / VELOCITY_WINDOW_MS);
        let w = v + 1;
        if w > 127 {
            127u8
        } else {
            w as u8
        }
    }
}

/// The velocity of every note-on lies in 1..=127.
pub proof fn lemma_velocity_in_midi_range(elapsed: u32)
    ensures
        1 <= velocity_for(elapsed) <= 127,
{
    if 0 < elapsed < VELOCITY_WINDOW_MS {
        assert((elapsed * 126) / 80 <= 126) by (nonlinear_arith)
            requires
                elapsed < 80,
        ;
    }
}

/// A slower stroke never gives a higher velocity.
pub proof fn lemma_velocity_monotone(e1: u32, e2: u32)
    requires
        e1 <= e2,
    ensures
        velocity_for(e1) >= velocity_for(e2),
{
    lemma_velocity_in_midi_range(e1);
    lemma_velocity_in_midi_range(e2);
    if 0 < e1 && e2 < VELOCITY_WINDOW_MS {
        assert((e1 * 126) / 80 <= (e2 * 126) / 80) by (nonlinear_arith)
            requires
                e1 <= e2,
        ;
    }
}

/// The state and the events after feeding `samples` (delta from baseline, tick) in order.
pub open spec fn switch_run(phase: SwitchPhase, count: u8, samples: Seq<(u16, u32)>) -> (
    SwitchPhase,
    u8,
    Seq<SwitchEvent>,
)
    decreases samples.len(),
{
    if samples.len() == 0 {
        (phase, count, Seq::empty())
    } else {
        let prev = switch_run(phase, count, samples.drop_last());
        let next = switch_step(prev.0, prev.1, samples.last().0, samples.last().1);
        let events = match next.2 {
            Some(e) => prev.2.push(e),
            None => prev.2,
        };
        (next.0, next.1, events)
    }
}

/// One step emits a note-on only when a half-pressed switch becomes fully pressed, a
/// note-off only when a fully pressed switch is released, and nothing else.
pub proof fn lemma_switch_step_events(phase: SwitchPhase, count: u8, delta: u16, tick: u32)
    ensures
        ({
            let (p, c, ev) = switch_step(phase, count, delta, tick);
            &&& ev matches Some(SwitchEvent::NoteOn { velocity }) ==> {
                &&& phase is FirstActuated
                &&& p == SwitchPhase::FullyActuated { velocity }
                &&& delta >= SECOND_DELTA
                &&& 1 <= velocity <= 127
            }
            &&& ev == Some(SwitchEvent::NoteOff) ==> phase is FullyActuated && p
                == SwitchPhase::Idle && delta < RELEASE_DELTA
            &&& ev is None ==> (p is FullyActuated <==> phase is FullyActuated)
            &&& ev matches Some(e) ==> (e is NoteOn || e is NoteOff)
            &&& count < DEBOUNCE_TICKS ==> c < DEBOUNCE_TICKS
        }),
{
    match phase {
        SwitchPhase::FirstActuated { tick: t1 } => {
            let elapsed: u32 = if tick >= t1 {
                (tick - t1) as u32
            } else {
                0
            };
            lemma_velocity_in_midi_range(elapsed);
        },
        _ => {},
    }
}

/// Starting from a released switch, the events of any run of samples alternate
/// note-on, note-off, note-on, …, and the switch is fully pressed exactly when the
/// last event was a note-on.
pub proof fn lemma_switch_run_alternates(count: u8, samples: Seq<(u16, u32)>)
    ensures
        ({
            let (p, c, evs) = switch_run(SwitchPhase::Idle, count, samples);
            &&& forall|i: int|
                0 <= i < evs.len() ==> (if i % 2 == 0 {
                    #[trigger] evs[i] is NoteOn
                } else {
                    evs[i] is NoteOff
                })
            &&& (p is FullyActuated <==> evs.len() % 2 == 1)
        }),
    decreases samples.len(),
{
    if samples.len() > 0 {
        let prev = switch_run(SwitchPhase::Idle, count, samples.drop_last());
        lemma_switch_run_alternates(count, samples.drop_last());
        lemma_switch_step_events(prev.0, prev.1, samples.last().0, samples.last().1);
    }
}


// ── Laws over whole histories ────────────────────────────────────────────────

/// Every filter averages exactly `FILTER_SIZE` samples.
pub proof fn lemma_window_len(f: ChannelFilter)
    ensures
        f.window().len() == FILTER_SIZE,
{
}

/// The window after feeding the samples `xs`, in order, to a filter holding window `w`.
pub open spec fn feed_all(w: Seq<u16>, xs: Seq<u16>) -> Seq<u16>
    decreases xs.len(),
{
    if xs.len() == 0 {
        w
    } else {
        feed_all(w, xs.drop_last()).drop_first().push(xs.last())
    }
}

/// Whatever was fed, the window holds the last `FILTER_SIZE` samples of the history that
/// starts with the window the filter was made or primed with; so the output of every feed
/// is the floor mean of the last four samples, the new one included.
pub proof fn lemma_window_holds_last_samples(w: Seq<u16>, xs: Seq<u16>)
    requires
        w.len() == FILTER_SIZE,
    ensures
        feed_all(w, xs) == (w + xs).subrange(xs.len() as int, xs.len() + FILTER_SIZE),
    decreases xs.len(),
{
    if xs.len() > 0 {
        lemma_window_holds_last_samples(w, xs.drop_last());
        assert(w + xs.drop_last() =~= (w + xs).drop_last());
        assert(feed_all(w, xs) =~= (w + xs).subrange(xs.len() as int, xs.len() + FILTER_SIZE));
    }
}

/// `n` copies of `v`.
pub open spec fn repeat(v: u16, n: nat) -> Seq<u16> {
    Seq::new(n, |i: int| v)
}

/// Two filters with the same window give the same outputs for every sequence of samples,
/// whatever their histories; a filter primed with `v` and fed `v` keeps giving `v`.
pub proof fn lemma_primed_filters_agree(f1: ChannelFilter, f2: ChannelFilter, xs: Seq<u16>, v: u16)
    requires
        f1.window() == f2.window(),
    ensures
        feed_all(f1.window(), xs) == feed_all(f2.window(), xs),
        forall|n: nat|
            feed_all(seq![v, v, v, v], #[trigger] repeat(v, n)) == seq![v, v, v, v],
        window_average(seq![v, v, v, v]) == v,
{
    assert forall|n: nat|
        feed_all(seq![v, v, v, v], #[trigger] repeat(v, n)) == seq![v, v, v, v] by {
        let xs = repeat(v, n);
        lemma_window_holds_last_samples(seq![v, v, v, v], xs);
        assert((seq![v, v, v, v] + xs).subrange(n as int, n as int + 4) =~= seq![v, v, v, v]);
    }
}

/// The events among the results of successive calls, in call order.
pub open spec fn raised(results: Seq<Option<SwitchEvent>>) -> Seq<SwitchEvent>
    decreases results.len(),
{
    if results.len() == 0 {
        Seq::empty()
    } else {
        let prev = raised(results.drop_last());
        match results.last() {
            Some(e) => prev.push(e),
            None => prev,
        }
    }
}

/// `states[k]` is a switch before call `k` of `update`, `states[k + 1]` after it, `results[k]`
/// what the call returned and `samples[k]` its (distance from the baseline, tick), as the
/// contract of `update` relates them.
pub open spec fn is_update_trace(
    states: Seq<SwitchState>,
    results: Seq<Option<SwitchEvent>>,
    samples: Seq<(u16, u32)>,
) -> bool {
    &&& states.len() == samples.len() + 1
    &&& results.len() == samples.len()
    &&& forall|k: int|
        0 <= k < samples.len() ==> ((states[k + 1].phase_spec(), states[k + 1].count_spec(),
            #[trigger] results[k]) == switch_step(
            states[k].phase_spec(),
            states[k].count_spec(),
            samples[k].0,
            samples[k].1,
        ))
}

proof fn lemma_trace_is_run(
    states: Seq<SwitchState>,
    results: Seq<Option<SwitchEvent>>,
    samples: Seq<(u16, u32)>,
    n: int,
)
    requires
        is_update_trace(states, results, samples),
        states[0].phase_spec() == SwitchPhase::Idle,
        0 <= n <= samples.len(),
    ensures
        switch_run(SwitchPhase::Idle, states[0].count_spec(), samples.take(n)) == (
            states[n].phase_spec(),
            states[n].count_spec(),
            raised(results.take(n)),
        ),
    decreases n,
{
    if n > 0 {
        lemma_trace_is_run(states, results, samples, n - 1);
        assert(samples.take(n).drop_last() =~= samples.take(n - 1));
        assert(results.take(n).drop_last() =~= results.take(n - 1));
        assert(results.take(n).last() == results[n - 1]);
        assert(samples.take(n).last() == samples[n - 1]);
    } else {
        assert(results.take(0) =~= Seq::<Option<SwitchEvent>>::empty());
    }
}

/// For any sequence of `update` calls on a released switch (such as a new one), the events
/// returned alternate note-on, note-off, note-on, …, starting with a note-on, and no call
/// returns a controller or pitch-bend event.
pub proof fn lemma_update_calls_alternate(
    states: Seq<SwitchState>,
    results: Seq<Option<SwitchEvent>>,
    samples: Seq<(u16, u32)>,
)
    requires
        is_update_trace(states, results, samples),
        states[0].phase_spec() == SwitchPhase::Idle,
    ensures
        forall|i: int|
            0 <= i < raised(results).len() ==> (if i % 2 == 0 {
                #[trigger] raised(results)[i] is NoteOn
            } else {
                raised(results)[i] is NoteOff
            }),
{
    let n = samples.len() as int;
    lemma_trace_is_run(states, results, samples, n);
    assert(samples.take(n) =~= samples);
    assert(results.take(n) =~= results);
    lemma_switch_run_alternates(states[0].count_spec(), samples);
}

/// A sample at distance `delta` counts towards leaving `phase`.
pub open spec fn confirms(phase: SwitchPhase, delta: u16) -> bool {
    match phase {
        SwitchPhase::Idle => delta >= FIRST_DELTA,
        SwitchPhase::FirstActuated { .. } => delta >= SECOND_DELTA || delta < RELEASE_DELTA,
        SwitchPhase::FullyActuated { .. } => delta < RELEASE_DELTA,
    }
}

/// After `k` calls: the last `count` samples were all taken in the current phase and all
/// confirm leaving it, and the phase was reached after enough samples.
spec fn debounce_inv(states: Seq<SwitchState>, samples: Seq<(u16, u32)>, k: int) -> bool {
    let c = states[k].count_spec() as int;
    let p = states[k].phase_spec();
    &&& c < DEBOUNCE_TICKS
    &&& c <= k
    &&& forall|j: int|
        k - c <= j < k ==> #[trigger] states[j].phase_spec() == p && confirms(p, samples[j].0)
    &&& p is FirstActuated ==> k >= DEBOUNCE_TICKS + c
    &&& p is FullyActuated ==> k >= 2 * DEBOUNCE_TICKS + c
}

proof fn lemma_debounce_inv(
    states: Seq<SwitchState>,
    results: Seq<Option<SwitchEvent>>,
    samples: Seq<(u16, u32)>,
    k: int,
)
    requires
        is_update_trace(states, results, samples),
        states[0].phase_spec() == SwitchPhase::Idle,
        states[0].count_spec() == 0,
        0 <= k <= samples.len(),
    ensures
        debounce_inv(states, samples, k),
    decreases k,
{
    if k > 0 {
        lemma_debounce_inv(states, results, samples, k - 1);
        let r = results[k - 1];
        assert((states[k].phase_spec(), states[k].count_spec(), r) == switch_step(
            states[k - 1].phase_spec(),
            states[k - 1].count_spec(),
            samples[k - 1].0,
            samples[k - 1].1,
        ));
        let c = states[k].count_spec() as int;
        let p = states[k].phase_spec();
        assert forall|j: int| k - c <= j < k implies #[trigger] states[j].phase_spec() == p
            && confirms(p, samples[j].0) by {
            if j < k - 1 {
                assert(states[j].phase_spec() == states[k - 1].phase_spec());
            }
        }
    }
}

/// A note-off needs `DEBOUNCE_TICKS` consecutive samples below `RELEASE_DELTA`. A note-on
/// from a new switch needs at least `2 * DEBOUNCE_TICKS` samples, the last at or past
/// `SECOND_DELTA`, and the two before it taken half-pressed, each either at or past
/// `SECOND_DELTA` or below `RELEASE_DELTA` (while half pressed, press and release samples
/// share one counter).
pub proof fn lemma_events_are_debounced(
    states: Seq<SwitchState>,
    results: Seq<Option<SwitchEvent>>,
    samples: Seq<(u16, u32)>,
)
    requires
        is_update_trace(states, results, samples),
        states[0].phase_spec() == SwitchPhase::Idle,
        states[0].count_spec() == 0,
        samples.len() > 0,
    ensures
        ({
            let n = samples.len() as int;
            &&& results[n - 1] == Some(SwitchEvent::NoteOff) ==> n >= DEBOUNCE_TICKS && forall|
                j: int,
            |
                n - DEBOUNCE_TICKS <= j < n ==> #[trigger] samples[j].0 < RELEASE_DELTA
            &&& results[n - 1] matches Some(SwitchEvent::NoteOn { .. }) ==> {
                &&& n >= 2 * DEBOUNCE_TICKS
                &&& samples[n - 1].0 >= SECOND_DELTA
                &&& forall|j: int|
                    n - DEBOUNCE_TICKS <= j < n ==> #[trigger] samples[j].0 >= SECOND_DELTA
                        || samples[j].0 < RELEASE_DELTA
            }
        }),
{
    let n = samples.len() as int;
    lemma_debounce_inv(states, results, samples, n - 1);
    assert((states[n].phase_spec(), states[n].count_spec(), results[n - 1]) == switch_step(
        states[n - 1].phase_spec(),
        states[n - 1].count_spec(),
        samples[n - 1].0,
        samples[n - 1].1,
    ));
    let p = states[n - 1].phase_spec();
    if results[n - 1] is Some {
        assert(states[n - 1].count_spec() == 2);
        assert(states[n - 3].phase_spec() == p && confirms(p, samples[n - 3].0));
        assert(states[n - 2].phase_spec() == p && confirms(p, samples[n - 2].0));
        if results[n - 1] == Some(SwitchEvent::NoteOff) {
            assert(p is FullyActuated);
            assert forall|j: int| n - DEBOUNCE_TICKS <= j < n implies #[trigger] samples[j].0
                < RELEASE_DELTA by {
                if j < n - 1 {
                    assert(j == n - 3 || j == n - 2);
                }
            }
        } else {
            assert(p is FirstActuated);
            assert forall|j: int| n - DEBOUNCE_TICKS <= j < n implies #[trigger] samples[j].0
                >= SECOND_DELTA || samples[j].0 < RELEASE_DELTA by {
                if j < n - 1 {
                    assert(j == n - 3 || j == n - 2);
                }
            }
        }
    }
}
} // verus!
