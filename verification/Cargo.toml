[package]
name = "firmware_rs"
version = "0.1.0"
edition = "2021"
publish = false

[dependencies]
cyw43 = { version = "=0.2.0", features = ["defmt", "firmware-logs"] }
cyw43-pio = { version = "=0.2.0", features = ["defmt"] }
defmt = "=0.3.101"
defmt-rtt = "=0.4.2"
embassy-executor = { version = "=0.6.3", features = ["arch-std", "executor-thread", "defmt", "integrated-timers"] }
embassy-net = { version = "=0.4.0", features = ["defmt", "tcp", "dhcpv4", "dns", "proto-ipv4", "medium-ethernet"] }
embassy-rp = { version = "=0.2.0", features = ["defmt", "time-driver"] }
embassy-time = { version = "=0.3.2", features = ["defmt"] }
embedded-io-async = "=0.6.1"
panic-probe = { version = "=0.3.2", features = ["print-defmt"] }
rand = { version = "=0.8.8", default-features = false }
reqwless = { version = "=0.12.1", features = ["defmt"] }
static_cell = "=2.1.1"
