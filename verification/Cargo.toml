[package]
name = "smartknob"
version = "0.1.0"
edition = "2021"
publish = false

[dependencies]
embedded-graphics = "=0.8.2"
embedded-hal-async = "=1.0.0"
embassy-executor = "0.7.0"
embassy-time = "0.4.0"
log = "=0.4.34"
esp-alloc = "0.8.0"
esp-backtrace = { version = "0.17.0", features = ["esp32c6", "panic-handler", "println"] }
esp-bootloader-esp-idf = "0.2.0"
esp-hal = { version = "=1.0.0-rc.0", features = ["esp32c6", "unstable"] }
esp-hal-embassy = { version = "0.9.1", features = ["esp32c6"] }
esp-println = { version = "0.15.0", features = ["esp32c6", "log-04"] }
