[package]
name = "ws-esp32-s3-touch-lcd-2-8c"
version = "2.0.0"
edition = "2021"
publish = false

[dependencies]
embassy-embedded-hal = "=0.6.0"
embassy-sync = "=0.8.0"
embassy-time = "=0.5.1"
embedded-hal = "=1.0.0"
embedded-hal-async = "=1.0.0"
embedded-hal-bus = "=0.3.0"
esp-hal = { version = "=1.0.0-rc.0", features = ["esp32s3", "unstable", "psram"] }
gt911 = "=0.3.0"
pcf85063a = "=0.1.1"
ph-qmi8658 = "=0.1.1"
port-expander = "=0.6.5"
static_cell = "=2.1.1"
time = { version = "=0.3.55", default-features = false }
