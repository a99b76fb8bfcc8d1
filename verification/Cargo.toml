[package]
name = "madalya"
version = "0.1.0"
edition = "2021"
publish = false

[dependencies]
anyhow = "1"
dirs = "5"
serde = { version = "1", features = ["derive"] }
serde_json = "1"
toml = "0.8"
strum = { version = "0.26", features = ["derive"] }
rusqlite = { version = "0.32", features = ["bundled"] }
rhai = "1"
walkdir = "2"
ureq = "2"
tracing = "0.1"
tracing-subscriber = { version = "0.3", features = ["env-filter", "fmt"] }
smol = "2"
jiff = "0.2"
notify = "6"
gstreamer = "0.23"
gstreamer-app = "0.23"
gstreamer-pbutils = "0.23"
gstreamer-video = "0.23"
image = { version = "0.25", default-features = false, features = ["jpeg", "png"] }
smallvec = "1"
