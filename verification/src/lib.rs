//! Clock frequency measurement by tick counting.
//!
//! A free-running counter is clocked, through a fixed prescale divider, by the
//! clock under measurement. Once per reference pulse its raw value is sampled;
//! the wrap-aware difference between two consecutive samples is the number of
//! prescaled ticks in one reference interval, which is reported as text.
//!
//! Everything here is pure computation on plain values. Touching the timer
//! registers, acknowledging the reference pulse and sending the text somewhere
//! are left to the caller.

pub mod counter;
pub mod decimal;
pub mod prescale;
pub mod reference;
pub mod report;
pub mod sampler;
pub mod setup;
