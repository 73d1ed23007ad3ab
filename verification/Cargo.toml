[package]
name = "slave_bms"
version = "0.1.0"
edition = "2021"
publish = false

[dependencies]
cortex-m = "=0.7.10"
defmt = "=0.3.101"
embassy-executor = { version = "=0.7.0", features = ["arch-std", "executor-thread"] }
embassy-futures = "=0.1.2"
embassy-stm32 = { version = "=0.2.0", features = ["stm32f405rg", "time-driver-any", "defmt"] }
embassy-sync = "=0.6.2"
embassy-time = "=0.4.0"
embassy-usb = "=0.4.0"
heapless = "=0.8.0"
libm = "=0.2.16"
static_cell = "=2.1.1"
