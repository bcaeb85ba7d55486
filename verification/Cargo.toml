[package]
name = "doh_client"
version = "0.1.0"
edition = "2021"
publish = false

[dependencies]
async-http-proxy = { version = "*", features = ["runtime-tokio", "basic-auth"] }
base64 = "*"
bytes = "*"
clap = { version = "*", features = ["cargo"] }
dns-message-parser = "*"
env_logger = "*"
futures = "*"
h2 = "*"
http = "*"
log = "*"
lru = "*"
rustls = "*"
rustls-native-certs = "*"
rustls-pemfile = "*"
rustls-pki-types = "*"
thiserror = "*"
tokio = { version = "*", features = ["rt-multi-thread", "macros", "net", "time", "io-util", "sync"] }
tokio-rustls = "*"
tokio-socks = "*"

[dev-dependencies]
data-encoding = "*"
