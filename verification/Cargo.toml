[package]
name = "wiremock_grpc"
version = "0.1.0"
edition = "2021"
publish = false

[dependencies]
bytes = "=1.12.1"
http-body-util = "=0.1.5"
prost = "=0.14.4"
tokio = { version = "=1.53.2", features = ["rt-multi-thread", "net", "time"] }
tonic = "=0.14.6"
