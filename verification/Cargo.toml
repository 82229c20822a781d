[package]
name = "hako"
version = "0.1.0"
edition = "2021"
publish = false

[dependencies]
async-trait = "=0.1.92"
clap = { version = "=4.6.7", features = ["derive"] }
futures-core = "=0.3.34"
futures-util = "=0.3.34"
jiff = "=0.2.39"
schemars = "=1.2.3"
serde = { version = "=1.0.229", features = ["derive"] }
serde_json = { version = "=1.0.154", features = ["preserve_order"] }
thiserror = "=2.0.21"
tokio = { version = "=1.54.1", features = ["fs", "io-util", "macros", "process", "rt", "rt-multi-thread", "sync", "test-util", "time"] }
toml = "=1.1.8"
ureq = { version = "=3.5.1", default-features = false, features = ["json"] }
utoipa = "=6.0.0"
uuid = { version = "=1.29.0", features = ["v4"] }

[dev-dependencies]
tempfile = "=3.27.0"
