[package]
name = "pickle"
version = "0.1.0"
edition = "2021"
publish = false

[dependencies]
clap = { version = "4", features = ["derive"] }
moka = { version = "0.12", features = ["sync", "future"] }
rick-and-morty = "*"
securestore = "*"
serde_json = "1"
thiserror = "1"
tokio = { version = "1", features = ["macros", "rt-multi-thread"] }
uuid = { version = "1", features = ["v4"] }
warp = "0.3"
