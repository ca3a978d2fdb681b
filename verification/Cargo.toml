[package]
name = "sensor_fuse"
version = "0.1.0"
edition = "2021"
publish = false

[dependencies]
async-lock = "3"
derived-deref = "2"
either = "1"
event-listener = "5"
futures = "0.3"
parking_lot = "0.12"
