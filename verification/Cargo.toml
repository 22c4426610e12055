[package]
name = "deep_print"
version = "0.1.0"
edition = "2021"
publish = false

[dependencies]
regex = "1"
qrcode = { version = "*", default-features = false }
serde = { version = "1", features = ["derive"] }
serde_json = "1"
skia-safe = { version = "*", features = ["textlayout"] }
axum = "*"
tokio = { version = "1", features = ["full"] }
tower-http = { version = "*", features = ["cors"] }
dirs = "*"
printers = "*"
