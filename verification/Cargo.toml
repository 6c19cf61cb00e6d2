[package]
name = "vault"
version = "0.1.0"
edition = "2021"
publish = false

[dependencies]
android_logger = "0.10"
base64 = "0.13"
env_logger = "0.9"
jni = "0.19"
log = "0.4"
openssl = "0.10"
rand = "0.8"
rusqlite = "0.26"
serde = { version = "1", features = ["derive"] }
serde_json = "1"
sha2 = "0.10"
tokio = { version = "1", features = ["full"] }
tokio-native-tls = "0.3"
