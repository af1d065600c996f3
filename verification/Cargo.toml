[package]
name = "lcd_graphics"
version = "0.1.0"
edition = "2021"
publish = false

[dependencies]
byte-slice-cast = "1"
embassy-executor = "*"
embassy-time = "*"
esp-alloc = "*"
esp-backtrace = "*"
esp-bootloader-esp-idf = "*"
esp-hal = { version = "1.0.0", features = ["unstable"] }
esp-println = "*"
esp-rtos = "*"
log = "0.4"
static_cell = "2"
thiserror = { version = "2", default-features = false }
