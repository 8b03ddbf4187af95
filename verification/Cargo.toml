[package]
name = "button_events"
version = "0.1.0"
edition = "2021"
publish = false

[dependencies]
embassy-futures = "*"
embassy-time = "*"
embedded-hal = "*"
embedded-hal-async = "*"
