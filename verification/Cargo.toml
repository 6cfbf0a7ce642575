[package]
name = "internet_roadtrip_pathfinder"
version = "0.1.0"
edition = "2021"
publish = false

[dependencies]
axum = { version = "*", features = ["ws"] }
base64 = "*"
byteorder = "*"
coarsetime = "*"
compact_str = "*"
eyre = "*"
futures = "*"
heed = "*"
http = "*"
indexmap = "*"
mimalloc = "*"
parking_lot = "*"
quick_cache = "*"
reqwest = { version = "*", features = ["json", "cookies"] }
rustc-hash = "*"
serde = { version = "*", features = ["derive"] }
simd-json = "*"
tokio = { version = "*", features = ["full"] }
tokio-tungstenite = "*"
tower-http = { version = "*", features = ["cors"] }
tracing = "*"
tracing-subscriber = "*"
