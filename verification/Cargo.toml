[package]
name = "url_uploader"
version = "0.1.0"
edition = "2021"
publish = false

[dependencies]
anyhow = "=1.0.104"
async-read-progress = "=0.2.0"
bytesize = "=1.3.3"
chrono = "=0.4.45"
dashmap = "=6.2.1"
dotenv = "=0.15.0"
futures = "=0.3.34"
grammers-client = { version = "=0.7.0", features = ["html"] }
grammers-mtsender = "=0.7.0"
grammers-session = "=0.7.0"
log = "=0.4.35"
mime_guess = "=2.0.5"
percent-encoding = "=2.3.2"
reqwest = { version = "=0.12.28", default-features = false, features = ["stream"] }
scopeguard = "=1.2.0"
simplelog = "=0.12.2"
stream-cancel = "=0.8.2"
tokio = { version = "=1.54.1", features = ["full"] }
tokio-util = { version = "=0.7.20", features = ["compat"] }
