[package]
name = "orcestr_real_translate"
version = "0.1.0"
edition = "2021"
publish = false

[dependencies]
url = "2"
base64 = "0.22"
sha2 = "0.10"
getrandom = "0.3"
cpal = "*"
serde = { version = "1", features = ["derive"] }
serde_json = "1"
tokio = { version = "1", features = ["sync", "time", "rt", "macros"] }
reqwest = { version = "0.12", default-features = false, features = ["json"] }
keyring = "*"
nnnoiseless = "*"
tokio-tungstenite = "*"
futures-util = "*"
once_cell = "1"
