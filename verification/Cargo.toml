[package]
name = "alarm_mux"
version = "0.1.0"
edition = "2021"
publish = false

[dependencies]
fugit = "=0.3.9"
embedded-hal = { version = "=0.2.7", features = ["unproven"] }
critical-section = "=1.2.0"
rp-pico = "=0.8.0"
rp2040-hal = "=0.9.2"
defmt = "=0.3.101"
defmt-rtt = "=0.4.2"
panic-probe = { version = "=0.3.2", features = ["print-defmt"] }
alloc-cortex-m = "=0.4.4"
cortex-m = "=0.7.10"
cortex-m-rt = "=0.7.7"
pc-keyboard = "=0.7.0"
x86_64 = { version = "=0.14.13", default-features = false, features = ["instructions"] }
