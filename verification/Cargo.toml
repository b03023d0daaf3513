[package]
name = "wiremock-grpc"
version = "0.1.0"
edition = "2021"
publish = false

[dependencies]
anyhow = "1"
cargo_toml = "*"
http-body = "1"
log = "0.4"
proc-macro2 = "1"
prost = "*"
quote = "1"
rand = "0.8"
regex = "1"
syn = { version = "2", features = ["full"] }
tokio = { version = "1", features = ["macros", "net", "rt-multi-thread", "time"] }
tonic = "*"
