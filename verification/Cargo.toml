[package]
name = "splinter_transport"
version = "0.1.0"
edition = "2021"
publish = false

[dependencies]
websocket = { version = "=0.26.5", default-features = false, features = ["sync"] }
mio = "=0.6.23"
rand = "=0.7.3"
hyper = "=0.13.10"
tokio = { version = "=0.2.25", features = ["rt-core"] }
actix-web = { version = "=3.3.3", features = ["openssl"] }
actix-service = "=1.0.6"
futures = "=0.3.34"
openssl = "=0.10.81"
diesel = { version = "=1.4.8", features = ["r2d2", "sqlite", "postgres"] }
cylinder = "=0.2.4"
rustyline = "=6.3.0"
