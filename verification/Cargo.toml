[package]
name = "zectrix_rs"
version = "0.1.0"
edition = "2021"
publish = false

[dependencies]
embassy-executor = "*"
embassy-time = "*"
esp-alloc = "*"
esp-backtrace = "*"
esp-bootloader-esp-idf = "*"
esp-hal = { version = "1", features = ["esp32s3", "unstable"] }
esp-println = "*"
esp-radio = { version = "*", default-features = false }
esp-rtos = { version = "*", default-features = false }
log = "0.4"
