[package]
name = "confluence_updater"
version = "0.1.0"
edition = "2021"
publish = false

[dependencies]
comrak = { version = "*", default-features = false }
sha2 = "0.10"
hex = "0.4"
normalize-path = "*"
serde = { version = "1", features = ["derive"] }
serde_json = "1"
serde_yml = "*"
reqwest = { version = "0.12", default-features = false, features = ["json", "multipart", "stream", "rustls-tls"] }
tokio = { version = "1", features = ["rt-multi-thread", "macros", "fs"] }
futures = "0.3"
clap = { version = "4", features = ["derive", "env"] }
tracing = "0.1"
tracing-subscriber = "0.3"
thiserror = "*"

[dev-dependencies]
regex = "1"
