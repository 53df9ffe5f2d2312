//! The sampler: invoked once per reference pulse with the tick counter's raw
//! value, it keeps the value of the pulse before and turns each pair of
//! readings into one reported frequency.

use vstd::prelude::*;
use vstd::arithmetic::div_mod::{lemma_small_mod, lemma_sub_mod_noop};
use vstd::arithmetic::power2::{lemma_pow2_pos, pow2};
use crate::counter::{lemma_delta_of_advance, wrapping_delta, CounterWidth};
use crate::prescale::Prescale;
use crate::report::{render_report, report_line};

verus! {

/// What a sampler is, as plain values: its configuration and the reading that
/// it remembers.
pub struct SamplerState {
    /// The channel's name in the output.
    pub label: Seq<char>,
    /// The frequency unit in the output.
    pub unit: Seq<char>,
    /// The prescale divider.
    pub divider: nat,
    /// The tick counter's bit width.
    pub bits: nat,
    /// Whether measurements are reported.
    pub active: bool,
    /// The raw counter value of the pulse before.
    pub previous: int,
}

impl SamplerState {
    /// The delta that `reading` yields against the remembered value.
    pub open spec fn delta(self, reading: int) -> int {
        wrapping_delta(self.previous, reading, self.bits)
    }

    /// The state after sampling `reading`: only the remembered value changes,
    /// and it becomes `reading` whatever the delta was.
    pub open spec fn after(self, reading: int) -> SamplerState {
        SamplerState { previous: reading, ..self }
    }

    /// The line reported for `reading`: none from a dormant sampler.
    pub open spec fn line(self, reading: int) -> Option<Seq<char>> {
        if self.active {
            Some(report_line(self.label, self.delta(reading) as nat, self.divider, self.unit))
        } else {
            None
        }
    }

    /// The state after sampling each of `readings` in turn.
    pub open spec fn after_all(self, readings: Seq<int>) -> SamplerState
        decreases readings.len(),
    {
        if readings.len() == 0 {
            self
        } else {
            self.after_all(readings.drop_last()).after(readings.last())
        }
    }

    /// What is reported, pulse by pulse, while `readings` are sampled in turn.
    pub open spec fn lines(self, readings: Seq<int>) -> Seq<Option<Seq<char>>> {
        Seq::new(readings.len(), |k: int| self.after_all(readings.take(k)).line(readings[k]))
    }
}

/// The raw values that are read at `pulses` consecutive reference pulses from
/// a counter of `bits` bits that stood at `start` one interval before the
/// first of them and advances by exactly `advance` ticks per interval.
pub open spec fn steady_readings(start: int, advance: int, bits: nat, pulses: nat) -> Seq<int> {
    Seq::new(pulses, |k: int| (start + (k + 1) * advance) % (pow2(bits) as int))
}

/// One measurement channel's sampler. Its remembered value is its own: no
/// other channel reads or writes it.
#[derive(Debug)]
pub struct Sampler {
    label: &'static str,
    unit: &'static str,
    prescale: Prescale,
    width: CounterWidth,
    active: bool,
    previous: u32,
}

impl View for Sampler {
    type V = SamplerState;

    closed spec fn view(&self) -> SamplerState {
        SamplerState {
            label: self.label@,
            unit: self.unit@,
            divider: self.prescale@,
            bits: self.width@,
            active: self.active,
            previous: self.previous as int,
        }
    }
}

impl Sampler {
    /// A reporting sampler that has seen no pulse yet. It remembers zero, the
    /// value that a freshly started counter begins at.
    pub fn new(
        label: &'static str,
        unit: &'static str,
        prescale: Prescale,
        width: CounterWidth,
    ) -> (sampler: Sampler)
        ensures
            sampler@ == (SamplerState {
                label: label@,
                unit: unit@,
                divider: prescale@,
                bits: width@,
                active: true,
                previous: 0,
            }),
    {
        Sampler { label, unit, prescale, width, active: true, previous: 0 }
    }

    /// A dormant sampler: it follows its counter like any other and reports
    /// nothing.
    pub fn dormant(
        label: &'static str,
        unit: &'static str,
        prescale: Prescale,
        width: CounterWidth,
    ) -> (sampler: Sampler)
        ensures
            sampler@ == (SamplerState {
                label: label@,
                unit: unit@,
                divider: prescale@,
                bits: width@,
                active: false,
                previous: 0,
            }),
    {
        Sampler { label, unit, prescale, width, active: false, previous: 0 }
    }

    /// The raw counter value of the pulse before; zero before the first pulse.
    pub fn previous(&self) -> (previous: u32)
        ensures
            previous == self@.previous,
    {
        self.previous
    }

    /// Whether measurements are reported.
    pub fn is_active(&self) -> (active: bool)
        ensures
            active == self@.active,
    {
        self.active
    }

    /// The channel's name in the output.
    pub fn label(&self) -> (label: &'static str)
        ensures
            label@ == self@.label,
    {
        self.label
    }

    /// The frequency unit in the output.
    pub fn unit(&self) -> (unit: &'static str)
        ensures
            unit@ == self@.unit,
    {
        self.unit
    }

    /// The prescale divider.
    pub fn prescale(&self) -> (prescale: Prescale)
        ensures
            prescale@ == self@.divider,
    {
        self.prescale
    }

    /// The tick counter's bit width.
    pub fn width(&self) -> (width: CounterWidth)
        ensures
            width@ == self@.bits,
    {
        self.width
    }

    /// Takes one sample: returns the wrap-aware delta between `reading` and
    /// the remembered value, and remembers `reading` in its place.
    pub fn sample(&mut self, reading: u32) -> (delta: u32)
        ensures
            delta == old(self)@.delta(reading as int),
            final(self)@ == old(self)@.after(reading as int),
    {
        let delta: u32 = self.width.delta(self.previous, reading);
        self.previous = reading;
        delta
    }

    /// Handles one reference pulse, given the tick counter's raw value read
    /// after the pulse was acknowledged. The sample is taken in any case; an
    /// active sampler returns the line to emit, a dormant one nothing.
    pub fn on_pulse(&mut self, reading: u32) -> (line: Option<String>)
        ensures
            final(self)@ == old(self)@.after(reading as int),
            line is Some <==> old(self)@.active,
            line matches Some(text) ==> Some(text@) == old(self)@.line(reading as int),
    {
        let delta: u32 = self.sample(reading);
        if self.active {
            Some(render_report(self.label, delta, self.prescale, self.unit))
        } else {
            None
        }
    }
}

/// Formatting depends on the delta alone: two samplers of one configuration
/// that see the same delta report the same line, wherever their counters
/// stand.
pub proof fn lemma_same_delta_same_line(
    first: SamplerState,
    second: SamplerState,
    first_reading: int,
    second_reading: int,
)
    requires
        first.label == second.label,
        first.unit == second.unit,
        first.divider == second.divider,
        first.active == second.active,
        first.delta(first_reading) == second.delta(second_reading),
    ensures
        first.line(first_reading) == second.line(second_reading),
{
}

/// Sampling changes nothing but the remembered value, and after at least one
/// sample that value is the last raw reading, whatever the deltas were and
/// whether or not the counter wrapped.
pub proof fn lemma_previous_is_last_reading(state: SamplerState, readings: Seq<int>)
    ensures
        state.after_all(readings) == (SamplerState {
            previous: if readings.len() == 0 {
                state.previous
            } else {
                readings.last()
            },
            ..state
        }),
    decreases readings.len(),
{
    if readings.len() > 0 {
        lemma_previous_is_last_reading(state, readings.drop_last());
    }
}

/// A counter that advances by the same number of ticks in every interval,
/// fewer than it takes to wrap all the way round, has an active sampler
/// report that number at every pulse.
pub proof fn lemma_steady_source_steady_report(
    state: SamplerState,
    advance: int,
    pulses: nat,
    pulse: int,
)
    requires
        state.active,
        0 <= advance < pow2(state.bits),
        0 <= pulse < pulses,
    ensures
        state.lines(steady_readings(state.previous, advance, state.bits, pulses))[pulse] == Some(
            report_line(state.label, advance as nat, state.divider, state.unit),
        ),
{
    let modulus: int = pow2(state.bits) as int;
    let readings = steady_readings(state.previous, advance, state.bits, pulses);
    let before = state.after_all(readings.take(pulse));
    lemma_pow2_pos(state.bits);
    lemma_previous_is_last_reading(state, readings.take(pulse));
    lemma_small_mod(advance as nat, pow2(state.bits));
    let earlier: int = state.previous + pulse * advance;
    let later: int = state.previous + (pulse + 1) * advance;
    assert(later - earlier == advance) by (nonlinear_arith)
        requires
            earlier == state.previous + pulse * advance,
            later == state.previous + (pulse + 1) * advance,
    ;
    assert(readings[pulse] == later % modulus);
    if pulse == 0 {
        assert(before.previous == state.previous);
        assert(earlier == state.previous) by (nonlinear_arith)
            requires
                pulse == 0,
                earlier == state.previous + pulse * advance,
        ;
        lemma_delta_of_advance(state.previous, advance, state.bits);
    } else {
        assert(readings.take(pulse).last() == readings[pulse - 1]);
        assert(before.previous == earlier % modulus);
        lemma_sub_mod_noop(later, earlier, modulus);
    }
    assert(before.delta(readings[pulse]) == advance);
}

} // verus!
