[package]
name = "namaz-vakti-logic"
version = "0.1.0"
edition = "2021"
publish = false

[dependencies]
anyhow = "1"
embedded-graphics = "0.8"
embedded-hal = "1"
embedded-svc = "*"
esp-idf-svc = "*"
log = "0.4"
mipidsi = "0.9"
serde = { version = "1", features = ["derive"] }
serde_json = "1"
toml-cfg = "*"
u8g2-fonts = "*"
