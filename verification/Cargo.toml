[package]
name = "braid"
version = "0.1.0"
edition = "2021"
publish = false

[dependencies]
base64 = "=0.22.1"
clap = { version = "=4.6.7", features = ["derive"] }
eframe = { version = "0.29", default-features = false, features = ["default_fonts", "glow", "x11"] }
reqwest = { version = "=0.12.28", default-features = false, features = ["json"] }
serde = { version = "=1.0.229", features = ["derive"] }
serde_json = "=1.0.154"
sha1 = "=0.10.7"
tokio = { version = "=1.54.1", features = ["macros", "rt-multi-thread", "net", "time"] }
url = "=2.5.8"
uuid = { version = "=1.29.0", features = ["v4"] }
