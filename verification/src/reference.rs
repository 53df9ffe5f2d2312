//! The reference design: a 16-bit counter behind a divide-by-1000 prescaler,
//! sampled once per second, so that the delta counts kilohertz and is reported
//! in megahertz with three decimals.

use vstd::prelude::*;
use vstd::arithmetic::power2::lemma2_to64;
use crate::counter::CounterWidth;
use crate::decimal::{digit_at, digit_count, pow10};
use crate::prescale::Prescale;
use crate::report::report_line;
use crate::sampler::{lemma_steady_source_steady_report, steady_readings, Sampler, SamplerState};

verus! {

/// Reference pulses per second.
pub const REFERENCE_PULSE_HZ: u32 = 1;

/// The prescale divider.
pub const PRESCALE_DIVIDER: u32 = 1000;

/// The tick counter's bit width.
pub const COUNTER_BITS: u32 = 16;

/// The unit that frequencies are reported in.
pub open spec fn unit_text() -> Seq<char> {
    "MHz"@
}

/// The measurement channels.
#[derive(Clone, Copy, Debug, PartialEq, Eq, Structural)]
pub enum Channel {
    /// The device's core clock, counted by a timer that it drives.
    Expected,
    /// Reserved for a second clock source. It stays dormant.
    Actual,
}

impl Channel {
    /// The channel's name in the output.
    pub open spec fn label_text(self) -> Seq<char> {
        match self {
            Channel::Expected => "Expected"@,
            Channel::Actual => "Actual"@,
        }
    }

    /// Whether the channel reports its measurements.
    pub open spec fn reports(self) -> bool {
        self is Expected
    }

    /// The channel's sampler at start-up.
    pub open spec fn initial_state(self) -> SamplerState {
        SamplerState {
            label: self.label_text(),
            unit: unit_text(),
            divider: PRESCALE_DIVIDER as nat,
            bits: COUNTER_BITS as nat,
            active: self.reports(),
            previous: 0,
        }
    }

    /// The channel's name in the output.
    pub fn label(self) -> (label: &'static str)
        ensures
            label@ == self.label_text(),
    {
        match self {
            Channel::Expected => "Expected",
            Channel::Actual => "Actual",
        }
    }

    /// Whether the channel reports its measurements.
    pub fn is_active(self) -> (active: bool)
        ensures
            active == self.reports(),
    {
        match self {
            Channel::Expected => true,
            Channel::Actual => false,
        }
    }

    /// The channel's sampler at start-up, with its own remembered value.
    pub fn sampler(self) -> (sampler: Sampler)
        ensures
            sampler@ == self.initial_state(),
    {
        if self.is_active() {
            Sampler::new(self.label(), unit(), prescale(), counter_width())
        } else {
            Sampler::dormant(self.label(), unit(), prescale(), counter_width())
        }
    }
}

/// The unit that frequencies are reported in.
pub fn unit() -> (unit: &'static str)
    ensures
        unit@ == unit_text(),
{
    "MHz"
}

/// The prescaler of the reference design.
pub fn prescale() -> (prescale: Prescale)
    ensures
        prescale@ == PRESCALE_DIVIDER,
{
    Prescale::new(PRESCALE_DIVIDER).unwrap()
}

/// The counter width of the reference design.
pub fn counter_width() -> (width: CounterWidth)
    ensures
        width@ == COUNTER_BITS,
{
    CounterWidth::new(COUNTER_BITS).unwrap()
}

/// A delta of 48000 is reported on the expected channel as 48.000 MHz.
proof fn lemma_line_at_48_mhz()
    ensures
        report_line(Channel::Expected.label_text(), 48000, PRESCALE_DIVIDER as nat, unit_text())
            == "Expected: 48.000 MHz"@,
{
    reveal_strlit("Expected");
    reveal_strlit(": ");
    reveal_strlit(".");
    reveal_strlit(" ");
    reveal_strlit("MHz");
    reveal_strlit("Expected: 48.000 MHz");
    reveal_with_fuel(pow10, 4);
    reveal_with_fuel(digit_count, 4);
    assert(pow10(0) == 1);
    assert(pow10(1) == 10);
    assert(pow10(2) == 100);
    assert(digit_count(48) == 2);
    assert(digit_count(999) == 3);
    assert(digit_at(48, 1) == 4);
    assert(digit_at(48, 0) == 8);
    assert(digit_at(0, 2) == 0);
    assert(digit_at(0, 1) == 0);
    assert(digit_at(0, 0) == 0);
}

/// With a 48 MHz clock the counter advances by exactly 48000 ticks in every
/// interval, and the expected channel then reports the same line at every
/// pulse from the first, for as long as it runs.
pub proof fn lemma_steady_48_mhz(pulses: nat, pulse: int)
    requires
        0 <= pulse < pulses,
    ensures
        Channel::Expected.initial_state().lines(
            steady_readings(0, 48000, COUNTER_BITS as nat, pulses),
        )[pulse] == Some("Expected: 48.000 MHz"@),
{
    lemma2_to64();
    lemma_line_at_48_mhz();
    lemma_steady_source_steady_report(Channel::Expected.initial_state(), 48000, pulses, pulse);
}

} // verus!
