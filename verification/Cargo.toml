[package]
name = "scale"
version = "0.1.0"
edition = "2021"
publish = false

[dependencies]
embedded-hal = "=1.0.0"
esp-backtrace = { version = "=0.20.0", features = ["esp32", "panic-handler", "println"] }
esp-bootloader-esp-idf = { version = "=0.6.0", features = ["esp32"] }
esp-hal = { version = "=1.2.2", features = ["esp32", "unstable"] }
esp-println = { version = "=0.18.0", features = ["esp32", "log-04"] }
esp-rtos = { version = "=0.4.0", features = ["esp32"] }
hx711 = "=0.7.0"
log = "=0.4.34"
nb = "=1.1.0"
