[package]
name = "crosslink"
version = "0.1.0"
edition = "2021"
publish = false

[dependencies]
aes-gcm = "0.10"
anyhow = "1"
bincode = "1.3"
clap = { version = "4", features = ["derive"] }
core-foundation = "0.9"
core-graphics = "0.22"
env_logger = "0.11"
hkdf = "0.12"
log = "0.4"
rand = "0.8"
serde = { version = "1", features = ["derive"] }
sha2 = "0.10"
tokio = { version = "1", features = ["full"] }
windows = { version = "0.58", features = ["Win32_Foundation", "Win32_UI_Input", "Win32_UI_Input_KeyboardAndMouse", "Win32_UI_WindowsAndMessaging"] }
x25519-dalek = { version = "2", features = ["static_secrets"] }
