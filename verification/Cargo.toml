[package]
name = "age4"
version = "0.1.0"
edition = "2021"
publish = false

[dependencies]
time = "=0.2.27"
uuid = { version = "=0.8.2", features = ["serde"] }
serde = { version = "=1.0.229", features = ["derive"] }
serde_json = "=1.0.154"
serde_repr = "=0.1.21"
sqlx = { version = "=0.5.13", default-features = false, features = ["postgres", "time", "uuid", "runtime-tokio-rustls", "migrate"] }
redis = { version = "=0.21.8", features = ["aio", "tokio-comp"] }
actix = "=0.13.5"
actix-web = { version = "=4.18.1", features = ["openssl"] }
actix-cors = "=0.6.5"
actix-rt = "=2.15.0"
anyhow = "=1.0.104"
async-recursion = "=1.2.0"
clap = "=2.34.0"
derive_more = "=0.99.20"
dotenv = "=0.15.0"
http = "=0.2.12"
itertools = "=0.10.5"
local-ip-address = "=0.5.7"
log = "=0.4.35"
log4rs = "=1.4.0"
openssl = "=0.10.82"
prost = "=0.9.0"
tonic = "=0.6.2"
tokio = { version = "=1.54.1", features = ["full"] }
reqwest = { version = "=0.11.27", default-features = false, features = ["json", "rustls-tls"] }
