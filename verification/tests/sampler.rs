use clock_frequency_measurement::counter::CounterWidth;
use clock_frequency_measurement::prescale::Prescale;
use clock_frequency_measurement::reference::{
    counter_width, prescale, unit, Channel, COUNTER_BITS, PRESCALE_DIVIDER, REFERENCE_PULSE_HZ,
};
use clock_frequency_measurement::sampler::Sampler;
use clock_frequency_measurement::setup::{tick_counter_setup, TickCounterSetup};

#[test]
fn reference_design_constants() {
    assert_eq!(REFERENCE_PULSE_HZ, 1);
    assert_eq!(PRESCALE_DIVIDER, 1000);
    assert_eq!(COUNTER_BITS, 16);
    assert_eq!(unit(), "MHz");
    assert_eq!(prescale().divider(), 1000);
    assert_eq!(counter_width().bits(), 16);
    assert_eq!(Channel::Expected.label(), "Expected");
    assert_eq!(Channel::Actual.label(), "Actual");
    assert!(Channel::Expected.is_active());
    assert!(!Channel::Actual.is_active());
}

#[test]
fn channels_are_told_apart() {
    assert_eq!(Channel::Expected, Channel::Expected);
    assert_ne!(Channel::Expected, Channel::Actual);
}

#[test]
fn reference_tick_counter_setup() {
    let setup = tick_counter_setup(prescale(), counter_width());
    assert_eq!(setup, TickCounterSetup { prescaler: 999, auto_reload: 0xffff, initial_count: 0 });
}

#[test]
fn tick_counter_setup_follows_the_configuration() {
    let setup = tick_counter_setup(Prescale::new(1).unwrap(), CounterWidth::new(32).unwrap());
    assert_eq!(setup, TickCounterSetup { prescaler: 0, auto_reload: u32::MAX, initial_count: 0 });
    let setup = tick_counter_setup(Prescale::new(48).unwrap(), CounterWidth::new(8).unwrap());
    assert_eq!(setup, TickCounterSetup { prescaler: 47, auto_reload: 255, initial_count: 0 });
}

#[test]
fn fresh_sampler_remembers_zero() {
    let s = Channel::Expected.sampler();
    assert_eq!(s.previous(), 0);
    assert!(s.is_active());
    assert_eq!(s.label(), "Expected");
    assert_eq!(s.unit(), "MHz");
    assert_eq!(s.prescale().divider(), 1000);
    assert_eq!(s.width().bits(), 16);
    let a = Channel::Actual.sampler();
    assert_eq!(a.previous(), 0);
    assert!(!a.is_active());
    assert_eq!(a.label(), "Actual");
}

#[test]
fn sample_returns_the_delta_and_remembers_the_reading() {
    let mut s = Channel::Expected.sampler();
    assert_eq!(s.sample(48_000), 48_000);
    assert_eq!(s.previous(), 48_000);
    assert_eq!(s.sample(30_464), 48_000);
    assert_eq!(s.previous(), 30_464);
    assert_eq!(s.sample(30_464), 0);
    assert_eq!(s.previous(), 30_464);
    assert_eq!(s.sample(30_463), 65_535);
    assert_eq!(s.previous(), 30_463);
}

#[test]
fn previous_is_always_the_last_reading() {
    let mut s = Channel::Expected.sampler();
    let readings: [u32; 8] = [65_535, 0, 1, 40_000, 39_999, 0, 65_535, 123];
    for &reading in readings.iter() {
        let _ = s.on_pulse(reading);
        assert_eq!(s.previous(), reading);
    }
    let mut s = Channel::Expected.sampler();
    for &reading in readings.iter() {
        let _ = s.sample(reading);
        assert_eq!(s.previous(), reading);
    }
}

#[test]
fn on_pulse_reports_the_frequency() {
    let mut s = Channel::Expected.sampler();
    assert_eq!(s.on_pulse(48_237).as_deref(), Some("Expected: 48.237 MHz"));
    assert_eq!(s.on_pulse(49_236).as_deref(), Some("Expected: 0.999 MHz"));
    assert_eq!(s.on_pulse(50_236).as_deref(), Some("Expected: 1.000 MHz"));
    assert_eq!(s.on_pulse(50_236).as_deref(), Some("Expected: 0.000 MHz"));
    assert_eq!(s.on_pulse(50_235).as_deref(), Some("Expected: 65.535 MHz"));
}

#[test]
fn steady_48_mhz_source_reports_the_same_line_forever() {
    let mut s = Channel::Expected.sampler();
    let mut counter: u32 = 0;
    for _ in 0..10_000 {
        counter = (counter + 48_000) % 65_536;
        assert_eq!(s.on_pulse(counter).as_deref(), Some("Expected: 48.000 MHz"));
        assert_eq!(s.previous(), counter);
    }
}

#[test]
fn steady_source_is_measured_from_any_starting_count() {
    let p = Prescale::new(1000).unwrap();
    let w = CounterWidth::new(16).unwrap();
    let mut s = Sampler::new("Expected", "MHz", p, w);
    let mut counter: u32 = 61_234;
    let _ = s.on_pulse(counter);
    for _ in 0..100 {
        counter = (counter + 16_000) % 65_536;
        assert_eq!(s.on_pulse(counter).as_deref(), Some("Expected: 16.000 MHz"));
    }
}

#[test]
fn dormant_sampler_follows_the_counter_silently() {
    let mut a = Channel::Actual.sampler();
    assert_eq!(a.on_pulse(48_000), None);
    assert_eq!(a.previous(), 48_000);
    assert_eq!(a.on_pulse(30_464), None);
    assert_eq!(a.previous(), 30_464);
    assert_eq!(a.sample(30_465), 1);
}

#[test]
fn channels_keep_their_own_history() {
    let mut e = Channel::Expected.sampler();
    let mut a = Channel::Actual.sampler();
    let _ = e.on_pulse(1_000);
    assert_eq!(a.previous(), 0);
    let _ = a.on_pulse(7);
    assert_eq!(e.previous(), 1_000);
    assert_eq!(a.previous(), 7);
}

#[test]
fn custom_sampler_uses_its_own_configuration() {
    let p = Prescale::new(100).unwrap();
    let w = CounterWidth::new(8).unwrap();
    let mut s = Sampler::new("Aux", "kHz", p, w);
    assert_eq!(s.on_pulse(250).as_deref(), Some("Aux: 2.50 kHz"));
    assert_eq!(s.on_pulse(4).as_deref(), Some("Aux: 0.10 kHz"));
    let mut d = Sampler::dormant("Aux", "kHz", p, w);
    assert_eq!(d.on_pulse(250), None);
    assert_eq!(d.previous(), 250);
}
