[package]
name = "bird_routes"
version = "0.1.0"
edition = "2021"
publish = false

[dependencies]
cargo-manifest = "*"
toml = "*"
serde_yaml = "*"
serde_json = "*"
serde = { version = "*", features = ["derive"] }
poem = "*"
tokio = { version = "*", features = ["rt-multi-thread", "macros"] }
