[package]
name = "gargoyle_feed_monitor"
version = "0.1.0"
edition = "2021"
publish = false

[dependencies]
feed-rs = "=3.0.0"
log = "=0.4.34"
reqwest = { version = "=0.13.5", default-features = false, features = ["blocking"] }
