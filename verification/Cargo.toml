[package]
name = "safe_rm"
version = "0.1.0"
edition = "2021"
publish = false

[dependencies]
glob = "=0.3.4"
serde = "=1.0.229"
serde_derive = "=1.0.229"
toml = "=1.1.8"

[dev-dependencies]
rustix = { version = "=1.1.5", features = ["fs"] }
tempfile = "=3.27.0"
