[package]
name = "voop"
version = "0.1.0"
edition = "2021"
publish = false

[dependencies]
bt-hci = "=0.10.1"
chrono = { version = "=0.4.45", default-features = false }
cortex-m = "=0.7.10"
display-interface = "=0.5.0"
embassy-executor = "=0.9.1"
embassy-futures = "=0.1.2"
embassy-nrf = { version = "=0.11.0", features = ["nrf52840", "time-driver-rtc1", "gpiote"] }
embassy-sync = "=0.8.0"
embassy-time = { version = "=0.5.1", features = ["tick-hz-32_768"] }
embassy-usb = { version = "=0.6.0", default-features = false }
embedded-graphics = "=0.8.2"
heapless = "=0.8.0"
log = "=0.4.35"
nmea = "=0.8.0"
nrf-sdc = { version = "=0.4.0", features = ["nrf52840", "peripheral", "central"] }
panic-halt = "=1.0.0"
ssd1306 = "=0.10.0"
static_cell = "=2.1.1"
trouble-host = { version = "=0.8.0", features = ["scan"] }
uniffi = "=0.32.2"
