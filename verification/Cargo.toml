[package]
name = "deepcanvas-core"
version = "0.1.0"
edition = "2021"
publish = false

[dependencies]
urlencoding = "2"
serde = { version = "1", features = ["derive"] }
serde_json = "1"
toml = "0.8"
thiserror = "1"
directories = "5"
keyring = "3"
reqwest = { version = "0.12", default-features = false, features = ["json", "rustls-tls"] }
tokio = { version = "1", features = ["macros", "rt-multi-thread"] }
clap = { version = "4.5", features = ["derive"] }
clap_complete = "4.5"
colored = "2"
comfy-table = "7"
dialoguer = "0.11"
indicatif = "0.17"
webbrowser = "1"
hostname = "0.4"
os_info = "3"
chrono = "0.4"
uuid = { version = "1", features = ["v4"] }
self_update = { version = "0.42", default-features = false, features = ["rustls", "compression-flate2"] }
