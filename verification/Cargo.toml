[package]
name = "metal_terminal"
version = "0.1.0"
edition = "2021"
publish = false

[dependencies]
aes-gcm = "0.10"
heapless = "0.8"
serde = { version = "1", features = ["derive"] }
serde_json = "1"
anyhow = "1"
log = "0.4"
toml-cfg = "0.2"
esp-idf-svc = "*"
lcd1602-diver = "*"
