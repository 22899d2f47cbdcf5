[package]
name = "uebuild"
version = "0.1.0"
edition = "2021"
publish = false

[dependencies]
zip = { version = "*", default-features = false, features = ["deflate"] }
chrono = { version = "*", default-features = false, features = ["std", "clock"] }
tokio = { version = "*", features = ["full"] }
clap = { version = "*", features = ["derive"] }
serde = { version = "*", features = ["derive"] }
serde_json = "*"
anyhow = "*"
thiserror = "*"
glob = "*"
dotenv = "*"
signal-hook = "*"
futures = "*"
