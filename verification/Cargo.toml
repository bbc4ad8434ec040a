[package]
name = "binance_bot"
version = "0.1.0"
edition = "2021"
publish = false

[dependencies]
rust_decimal = "1"
rust_decimal_macros = "1"
serde = { version = "1", features = ["derive"] }
serde_json = "1"
hex = "0.4"
base64 = "0.22"
ed25519-dalek = { version = "2", features = ["rand_core", "pkcs8", "pem"] }
rand = "0.8"
reqwest = { version = "0.12", default-features = false, features = ["json"] }
tokio = { version = "1", features = ["rt-multi-thread", "macros", "sync", "time", "net"] }
tokio-tungstenite = { version = "0.23", default-features = false, features = ["connect"] }
futures-util = "0.3"
lazy_static = "1"
log = "0.4"
log4rs = { version = "1.3", default-features = false, features = ["console_appender", "rolling_file_appender", "compound_policy", "fixed_window_roller", "time_trigger", "threshold_filter", "pattern_encoder"] }
