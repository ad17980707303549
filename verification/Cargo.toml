[package]
name = "air96"
version = "0.1.0"
edition = "2021"
publish = false

[dependencies]
cortex-m = "0.7"
cortex-m-rt = "0.7"
stm32f0xx-hal = { version = "0.18", features = ["stm32f072", "stm32-usbd"] }
usb-device = "0.2"
usbd-hid = "0.6"
heapless = "0.8"
nb = "1.1"
