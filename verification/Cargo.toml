[package]
name = "kelp"
version = "0.1.0"
edition = "2021"
publish = false

[dependencies]
cobs = "=0.3.0"
crc = "=3.4.0"
fring = "*"
futures = "0.3"
heapless = { version = "=0.9.3", features = ["serde"] }
oorandom = "=11.1.5"
postcard = { version = "=1.1.3", default-features = false, features = ["use-std", "use-crc"] }
rand = "=0.9.5"
serde = { version = "1", features = ["derive"] }
three-d = { version = "=0.19.0", features = ["egui-gui"] }
tokio = { version = "1", features = ["io-util", "macros", "rt", "rt-multi-thread", "sync", "test-util", "time"] }
tokio-serial = { version = "5", default-features = false }
