[package]
name = "clock_frequency_measurement"
version = "0.1.0"
edition = "2021"
publish = false

[dependencies]
cortex-m-rtic = "1"
defmt = "0.3"
defmt-rtt = "0.4"
panic-probe = { version = "0.3", features = ["print-defmt"] }
stm32g0xx-hal = { version = "0.1", features = ["rt", "stm32g031"] }
