[package]
name = "cch23_challenge"
version = "0.1.0"
edition = "2021"
publish = false

[dependencies]
askama = "=0.12.1"
axum = { version = "=0.7.9", features = ["ws", "multipart"] }
axum-extra = { version = "=0.9.6", features = ["typed-header"] }
base64 = "=0.22.1"
bytes = "=1.12.1"
chrono = "=0.4.45"
clap = { version = "=4.6.7", features = ["derive", "env"] }
dms-coordinates = "=1.3.1"
dotenv = "=0.15.0"
fancy-regex = "=0.13.0"
futures = "=0.3.34"
image = { version = "=0.25.10", default-features = false, features = ["bmp", "gif", "ico", "jpeg", "png", "pnm", "qoi", "tga", "tiff", "webp"] }
itertools = "=0.12.1"
josekit = "=0.8.7"
reqwest = { version = "=0.12.28", default-features = false, features = ["json", "rustls-tls"] }
rust-crypto = "=0.2.36"
s2 = "=0.0.13"
serde = { version = "=1.0.229", features = ["derive"] }
serde_json = { version = "=1.0.154", features = ["preserve_order"] }
sqlx = { version = "=0.7.4", default-features = false, features = ["runtime-tokio", "postgres", "macros"] }
tar = "=0.4.46"
tempfile = "=3.27.0"
tokio = { version = "=1.54.1", features = ["macros", "rt-multi-thread", "net", "signal", "sync", "time"] }
tower-http = { version = "=0.5.2", features = ["fs"] }
tracing = "=0.1.44"
tracing-subscriber = "=0.3.23"
ulid = { version = "=1.2.1", features = ["uuid"] }
uuid = "=1.29.0"
walkdir = "=2.5.0"
