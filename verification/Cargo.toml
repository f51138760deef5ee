[package]
name = "hazard-sensor"
version = "0.1.0"
edition = "2021"
publish = false

[dependencies]
heapless = "=0.9.3"
aes = "=0.9.4"
hmac = "=0.13.0"
sha2 = "=0.11.1"
embedded-hal = "=1.0.0"
embedded-hal-async = "=1.0.0"
embassy-time = "=0.5.1"
embassy-sync = "=0.8.0"
embassy-executor = { version = "=0.9.1", features = ["arch-std", "executor-thread"] }
embassy-nrf = { version = "=0.11.0", features = ["nrf52840", "time-driver-rtc1", "gpiote"] }
lora-phy = "=3.0.1"
defmt = "=1.2.0"
defmt-rtt = "=1.3.1"
panic-probe = "=1.0.0"
static_cell = "=2.1.1"
num-traits = { version = "=0.2.19", default-features = false }
async-modbus = "=0.7.2"
