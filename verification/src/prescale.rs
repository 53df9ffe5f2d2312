//! The prescale divider between the clock under measurement and the tick
//! counter.

use vstd::prelude::*;

verus! {

/// A fixed integer divisor, at least one, applied to the measured clock before
/// it reaches the tick counter.
///
/// The view is the divisor itself.
#[derive(Clone, Copy, Debug)]
pub struct Prescale {
    divider: u32,
}

impl View for Prescale {
    type V = nat;

    closed spec fn view(&self) -> nat {
        self.divider as nat
    }
}

impl Prescale {
    #[verifier::type_invariant]
    spec fn well_formed(self) -> bool {
        self.divider >= 1
    }

    /// Division by `divider`, for every divider but zero.
    pub fn new(divider: u32) -> (prescale: Option<Prescale>)
        ensures
            prescale is Some <==> divider >= 1,
            prescale matches Some(p) ==> p@ == divider,
    {
        if divider == 0 {
            None
        } else {
            Some(Prescale { divider })
        }
    }

    /// The divisor.
    pub fn divider(&self) -> (divider: u32)
        ensures
            divider == self@,
            divider >= 1,
    {
        proof {
            use_type_invariant(self);
        }
        self.divider
    }

    /// What the timer's prescaler register has to hold: a timer divides its
    /// clock by one more than the register's value.
    pub fn register_value(&self) -> (value: u32)
        ensures
            value + 1 == self@,
    {
        self.divider() - 1
    }
}

} // verus!
