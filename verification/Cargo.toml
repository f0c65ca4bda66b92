[package]
name = "arcropolis"
version = "0.1.0"
edition = "2021"
publish = false

[dependencies]
jwalk = "=0.5.1"
lazy_static = "=1.5.1"
log = "=0.4.35"
parking_lot = "=0.11.2"
