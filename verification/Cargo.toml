[package]
name = "doggygallery"
version = "0.5.3"
edition = "2021"
publish = false

[dependencies]
anyhow = "1"
askama = "0.12"
axum = "0.7"
axum-server = { version = "0.7", features = ["tls-rustls"] }
base64 = "0.22"
bzip2 = "*"
clap = { version = "4", features = ["derive", "env"] }
flate2 = "1"
id3 = "1"
infer = "0.16"
mime_guess = "2"
percent-encoding = "2"
rcgen = "0.13"
rustls = "0.23"
rustls-pemfile = "2"
serde = { version = "1", features = ["derive"] }
subtle = "2"
tar = "0.4"
tokio = { version = "1", features = ["full"] }
tower = "0.5"
tower-http = { version = "0.6", features = ["compression-gzip", "trace"] }
tracing = "0.1"
tracing-subscriber = { version = "0.3", features = ["env-filter"] }
zeroize = { version = "1", features = ["derive"] }
zip = { version = "2", default-features = false, features = ["deflate"] }
