[package]
name = "charcoal_dict"
version = "0.1.0"
edition = "2021"
publish = false

[dependencies]
anyhow = "=1.0.104"
clap = { version = "=4.6.7", features = ["derive"] }
colored = "=3.1.1"
directories = "=6.0.0"
directories-next = "=2.0.0"
env_logger = "=0.11.11"
futures = "=0.3.34"
log = "=0.4.35"
reqwest = "=0.13.5"
rodio = { version = "=0.23.0", default-features = false, features = ["flac", "mp3", "mp4", "vorbis", "wav"] }
scraper = "=0.29.0"
serde = { version = "=1.0.229", features = ["derive"] }
serde_json = "=1.0.154"
sha2 = "=0.11.1"
tar = "=0.4.46"
tempfile = "=3.27.0"
tokio = { version = "=1.54.1", features = ["full"] }
toml = "=1.2.1"
url = "=2.5.8"
whatlang = { version = "=0.18.0", features = ["serde"] }
which = "=8.0.6"
wincode = { version = "=0.6.3", features = ["derive"] }
