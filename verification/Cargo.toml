[package]
name = "spotisub"
version = "0.1.0"
edition = "2021"
publish = false

[dependencies]
actix-web = { version = "4", default-features = false, features = ["macros"] }
anyhow = "1"
async-stream = "0.3"
audioadapter-buffers = "*"
audiopus = "0.2"
bytemuck = "1"
bytes = "1"
clap = { version = "4", default-features = false, features = ["derive", "std"] }
librespot = { version = "0.8", default-features = false }
log = "0.4"
md-5 = "0.10"
ogg = "0.9"
parking_lot = "0.12"
rand = "0.9"
reqwest = { version = "0.12", default-features = false }
rspotify = "*"
rubato = "*"
serde = { version = "1", features = ["derive"] }
serde_json = "1"
tokio = { version = "1", features = ["rt-multi-thread", "macros", "sync", "time"] }
zerocopy = "0.8"
