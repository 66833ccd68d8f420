[package]
name = "sail_display"
version = "0.1.0"
edition = "2021"
publish = false

[dependencies]
datafusion = { version = "43", default-features = false }
datafusion-common = { version = "43", default-features = false }
chrono = "0.4"
lexical-core = "1"
ryu = "1"
futures = "0.3"
