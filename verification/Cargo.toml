[package]
name = "meetily_sherpa"
version = "0.1.0"
edition = "2021"
publish = false

[dependencies]
async-trait = "=0.1.92"
bzip2 = "=0.4.4"
log = "=0.4.35"
reqwest = { version = "=0.12.28", default-features = false, features = ["blocking"] }
serde_json = "=1.0.154"
tar = "=0.4.46"
tauri = { version = "=2.12.5", default-features = false }
