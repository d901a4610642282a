[package]
name = "kb_emulator_manager"
version = "0.1.0"
edition = "2021"
publish = false

[dependencies]
serde = { version = "1", features = ["derive"] }
serde_json = "1"
sysinfo = { version = "0.40", default-features = false, features = ["system"] }
zip = { version = "9", default-features = false, features = ["deflate"] }
anyhow = "1"
tokio = { version = "1", features = ["process", "io-util", "rt-multi-thread", "fs"] }
reqwest = { version = "0.12", default-features = false, features = ["stream", "rustls-tls"] }
futures-util = "0.3"
winreg = "0.56"
