[package]
name = "bus_analyzer"
version = "0.1.0"
edition = "2021"
publish = false

[dependencies]
fixed = "=1.31.0"
rand_chacha = { version = "=0.3.1", default-features = false }
smart-leds = "=0.4.0"
serialport5 = "=5.0.2"
embassy-rp = "=0.10.0"
embassy-executor = "=0.10.0"
embassy-time = "=0.5.1"
embassy-sync = "=0.8.0"
embassy-futures = "=0.1.2"
embassy-usb = "=0.6.0"
embassy-usb-driver = "=0.2.2"
pio-proc = "=0.4.0"
static_cell = "=2.1.1"
defmt = "*"
assign-resources = "*"
