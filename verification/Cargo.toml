[package]
name = "ide_ui"
version = "0.1.0"
edition = "2021"
publish = false

[dependencies]
im = "15.1"
druid = "0.8"
tracing-subscriber = "0.3"
