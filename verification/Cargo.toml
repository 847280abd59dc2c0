[package]
name = "connman"
version = "0.2.0"
edition = "2021"
publish = false

[dependencies]
dbus = { version = "=0.9.12", features = ["futures", "vendored"] }
thiserror = "=1.0.69"
xml-rs = "=0.8.29"
