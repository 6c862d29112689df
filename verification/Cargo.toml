[package]
name = "rust_digger"
version = "0.1.0"
edition = "2021"
publish = false

[dependencies]
chrono = "=0.4.45"
csv = "=1.4.0"
# liquid's text type, held back: its latest patches need rustc 1.96
kstring = "=2.0.2"
liquid = "=0.26.11"
log = "=0.4.34"
serde = { version = "=1.0.229", features = ["derive"] }
serde_json = "=1.0.154"
simple_logger = "=5.2.0"

[dev-dependencies]
regex = "=1.13.1"
