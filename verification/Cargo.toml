[package]
name = "prism-notify"
version = "0.1.0"
edition = "2021"
publish = false

[dependencies]
anyhow = "1"
damascene-core = "=0.8.0"
damascene-wgpu = "=0.8.0"
knuffel = "3"
miette = { version = "5", features = ["fancy"] }
png = "0.17"
pollster = "0.4"
raw-window-handle = "0.6"
rustix = { version = "1", features = ["fs"] }
smithay-client-toolkit = { version = "0.20", default-features = false, features = ["calloop"] }
tracing = "0.1"
tracing-subscriber = { version = "0.3", features = ["env-filter"] }
wayland-client = { version = "0.31", features = ["system", "dlopen"] }
wgpu = "30"
zbus = "5"
