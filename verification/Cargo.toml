[package]
name = "cloudapi_installr"
version = "0.1.0"
edition = "2021"
publish = false

[dependencies]
anyhow = "=1.0.104"
chrono = "=0.4.45"
reqwest = { version = "=0.12.28", default-features = false, features = ["json"] }
serde = { version = "=1.0.229", features = ["derive"] }
serde_json = "=1.0.154"
sha2 = "=0.10.9"
thiserror = "=1.0.69"
tokio = { version = "=1.54.1", features = ["rt-multi-thread", "macros", "signal", "process", "time"] }
tokio-util = "=0.7.20"
tracing = "=0.1.44"
tracing-subscriber = "=0.3.23"
windows = { version = "=0.58.0", default-features = false, features = ["Win32_Foundation", "Win32_Storage_FileSystem"] }
zip = { version = "=0.6.6", default-features = false, features = ["deflate"] }
