[package]
name = "gofile_dav"
version = "0.1.0"
edition = "2021"
publish = false

[dependencies]
serde_json = "*"
percent-encoding = "*"
sha256 = { version = "*", default-features = false }
url = "*"
actix-web = "*"
anyhow = "*"
bytes = "*"
clap = { version = "*", features = ["derive", "env"] }
dav-server = { version = "*", features = ["actix-compat"] }
env_logger = "*"
futures-util = "*"
log = "*"
reqwest = { version = "*", default-features = false, features = ["json", "multipart", "stream"] }
reqwest-middleware = "*"
reqwest-retry = "*"
serde = { version = "*", features = ["derive"] }
tokio = { version = "*", features = ["rt-multi-thread", "macros", "sync"] }
tokio-stream = "*"
