[package]
name = "zero_to_async"
version = "0.1.0"
edition = "2021"
publish = false

[dependencies]
fugit = "0.3"
heapless = "0.8"
nrf52833-hal = "0.18"
nrf52833-pac = "0.12"
cortex-m = "0.7"
cortex-m-rt = "0.7"
critical-section = "1"
rtt-target = "0.5"
embedded-hal = "1.0"
panic-halt = "0.2"
