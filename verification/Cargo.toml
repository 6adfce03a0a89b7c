[package]
name = "jiri"
version = "0.1.0"
edition = "2021"
publish = false

[dependencies]
base64 = "*"
clap = { version = "*", features = ["derive"] }
clap_complete = "*"
comfy-table = "*"
dirs = "*"
reqwest = { version = "*", default-features = false, features = ["json", "rustls-tls"] }
serde = { version = "*", features = ["derive"] }
serde_json = "*"
textwrap = "*"
tokio = { version = "*", features = ["macros", "rt-multi-thread"] }
toml = "*"
