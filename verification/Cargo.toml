[package]
name = "audio_proxy"
version = "0.1.0"
edition = "2021"
publish = false

[dependencies]
rustc_apfloat = "=0.2.3"
anyhow = "=1.0.104"
log = "=0.4.34"
env_logger = "=0.11.11"
ctrlc = "=3.5.2"
serde = { version = "=1.0.229", features = ["derive"] }
serde_json = "=1.0.151"
wasapi = "=0.15.0"
windows = { version = "=0.52.0", features = ["Win32_Foundation", "Win32_Security", "Win32_Storage_FileSystem", "Win32_System_Pipes", "Win32_System_Com", "Win32_System_IO"] }
