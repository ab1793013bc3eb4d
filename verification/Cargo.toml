[package]
name = "keyed_editor"
version = "0.1.0"
edition = "2021"
publish = false

[dependencies]
crossterm = "0.29"
kdl = "6"
ropey = "1"
unicode-segmentation = "1"
strsim = "0.11"
jiff = "0.2"
tokio = { version = "1", default-features = false, features = ["sync"] }
oneshot = "0.1"
parking_lot = "0.12"
log = "0.4"
env_logger = "0.11"
thiserror = "2"
