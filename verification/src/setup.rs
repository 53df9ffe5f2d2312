//! What the tick counter's timer has to be programmed with.

use vstd::prelude::*;
use vstd::arithmetic::power2::pow2;
use crate::counter::CounterWidth;
use crate::prescale::Prescale;

verus! {

/// Register values for a timer that serves as tick counter. Once started with
/// them it is left running: a later reset would break the continuity that the
/// wrap-aware delta relies on.
#[derive(Clone, Copy, Debug, PartialEq, Eq, Structural)]
pub struct TickCounterSetup {
    /// The prescaler register: one less than the divider.
    pub prescaler: u32,
    /// The reload value: the largest raw value, so that the counter uses its
    /// whole width before it wraps.
    pub auto_reload: u32,
    /// The count to start from. It is what a fresh sampler remembers.
    pub initial_count: u32,
}

/// The setup of a counter of the given width behind the given prescaler.
pub fn tick_counter_setup(prescale: Prescale, width: CounterWidth) -> (setup: TickCounterSetup)
    ensures
        setup.prescaler + 1 == prescale@,
        setup.auto_reload + 1 == pow2(width@),
        setup.initial_count == 0,
{
    TickCounterSetup {
        prescaler: prescale.register_value(),
        auto_reload: width.max_count(),
        initial_count: 0,
    }
}

} // verus!
