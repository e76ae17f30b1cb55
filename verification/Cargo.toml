[package]
name = "stall"
version = "0.1.0"
edition = "2021"
publish = false

[dependencies]
cortex-m = "=0.7.10"
cortex-m-rt = "=0.7.7"
embassy-executor = "=0.10.0"
embassy-rp = { version = "=0.10.0", features = ["rp2040", "time-driver", "critical-section-impl"] }
embassy-time = "=0.5.1"
embassy-usb-logger = "=0.6.0"
log = "=0.4.35"
panic-reset = "=0.1.1"

[lints.rust]
unexpected_cfgs = { level = "warn", check-cfg = ["cfg(silent)", "cfg(replay)", "cfg(blink)"] }
