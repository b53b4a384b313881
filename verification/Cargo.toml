[package]
name = "lenso_secrets"
version = "0.1.0"
edition = "2021"
publish = false

[dependencies]
age = "0.11"
futures = "0.3"
lenso = "*"
lenso-kernel = "0.3"
lenso-native-adapter = "0.3"
secrecy = "0.10"
security-framework = "*"
serde = { version = "1", features = ["derive"] }
serde_json = "1"
zeroize = "1"
