[package]
name = "phonia-core"
version = "0.1.0"
edition = "2021"
publish = false

[dependencies]
alsa = "=0.12.1"
base64 = "=0.22.1"
bytes = "1"
dirs = "=7.0.0"
futures-executor = "0.3"
futures-util = "0.3"
libc = "0.2"
pulseaudio = "=0.3.2"
quick-xml = "=0.41.0"
rand = "=0.10.3"
reqwest = { version = "=0.13.5", default-features = false, features = ["stream"] }
serde = { version = "1", features = ["derive"] }
serde_json = "1"
symphonia = { version = "=0.6.1", features = ["aac", "flac", "isomp4", "wav", "pcm"] }
tidlers = "=0.5.0"
tokio = { version = "1", features = ["rt", "rt-multi-thread", "sync", "time", "net", "macros"] }
toml = "=1.1.8"
zbus = { version = "=5.19.0", default-features = false, features = ["tokio"] }
