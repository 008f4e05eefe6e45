[package]
name = "fedora_kernel_manager"
version = "0.1.0"
edition = "2021"
publish = false

[dependencies]
serde = { version = "1", features = ["derive"] }
serde_json = "1"
version-compare = "*"
gtk4 = "0.9"
libadwaita = { version = "0.7", features = ["v1_5"] }
async-channel = "2"
duct = "*"
os_pipe = "1"
homedir = "0.2"
linux-version = "*"
reqwest = { version = "0.12", default-features = false, features = ["blocking", "rustls-tls"] }
rust-i18n = "3"
