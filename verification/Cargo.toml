[package]
name = "crabhole"
version = "0.1.0"
edition = "2021"
publish = false

[dependencies]
ansi-to-html = "0.2"
env_logger = "0.10"
futures-util = "0.3"
lazy_static = "1"
libc = "0.2"
nix = "0.26"
regex = "1"
ringbuf = "0.3"
rust_socketio = { version = "0.6", features = ["async"] }
rustyline-async = "0.4"
serde_json = "1"
tokio = { version = "1", features = ["full"] }
tokio-util = "0.7"
