[package]
name = "sayiir"
version = "0.1.0"
edition = "2021"
publish = false

[dependencies]
aws-config = { version = "=1.13.0", default-features = false }
aws-sdk-dynamodb = { version = "=1.136.0", default-features = false, features = ["rt-tokio"] }
bytes = { version = "=1.12.1", features = ["serde"] }
chrono = { version = "=0.4.45", features = ["serde"] }
darling = "=0.20.11"
js-sys = "=0.3.107"
proc-macro2 = "=1.0.107"
quote = "=1.0.47"
serde = { version = "=1.0.229", features = ["derive"] }
serde_json = "=1.0.154"
sha2 = "=0.10.9"
sqlx = { version = "=0.8.6", default-features = false, features = ["sqlite", "runtime-tokio"] }
syn = { version = "=2.0.119", features = ["full", "extra-traits"] }
thiserror = "=2.0.21"
tokio = { version = "=1.54.1", features = ["rt", "time", "macros"] }
tracing = "=0.1.44"
ulid = "=1.2.1"
wasm-bindgen = "=0.2.130"
wasm-bindgen-futures = "0.4"
