[package]
name = "vivarium"
version = "0.1.0"
edition = "2021"
publish = false

[dependencies]
embedded-hal = "1.0"
nb = "1.1"
avr-device = { version = "0.7", features = ["atmega328p"] }
panic-halt = "1.0"
