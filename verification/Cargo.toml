[package]
name = "scd30"
version = "0.1.0"
edition = "2021"
publish = false

[dependencies]
crc-any = "=2.5.1"
embedded-hal = "=1.0.0"
linux-embedded-hal = "=0.5.0"
chrono = "=0.4.45"
tracing = "=0.1.44"
tracing-subscriber = "0.3"
ctrlc = "3"
