[package]
name = "moneropay"
version = "0.1.0"
edition = "2021"
publish = false

[dependencies]
axum = "0.8"
handlebars = "6"
monero = "*"
qrcode = { version = "0.14", default-features = false, features = ["svg"] }
reqwest = { version = "*", default-features = false }
serde = { version = "1", features = ["derive"] }
serde_json = "1"
thiserror = "2"
tokio = { version = "1", features = ["macros", "net", "rt-multi-thread", "time"] }
