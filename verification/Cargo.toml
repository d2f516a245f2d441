[package]
name = "rfid_reader"
version = "0.1.0"
edition = "2021"
publish = false

[dependencies]
esp-hal = { version = "*", features = ["esp32s3", "unstable"] }
esp-rtos = { version = "*", features = ["esp32s3", "embassy"] }
esp-println = { version = "*", features = ["esp32s3", "log-04"] }
esp-bootloader-esp-idf = { version = "*", features = ["esp32s3"] }
embassy-executor = "*"
embassy-time = "*"
log = "*"
