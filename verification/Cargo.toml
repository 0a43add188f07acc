[package]
name = "crimp"
version = "0.1.0"
edition = "2021"
publish = false

[dependencies]
wirm = "=5.1.0"
postcard = { version = "=1.1.3", features = ["alloc"] }
serde = { version = "=1.0.229", features = ["derive"] }
sha2 = "=0.10.9"
anyhow = "=1.0.104"
clap = { version = "=4.6.7", features = ["derive"] }
log = "=0.4.35"
env_logger = "=0.11.11"
wat = "=1.263.0"
wasmprinter = "=0.263.0"
escargot = "=1.0.1"
wasmtime = "=45.0.3"
wasmtime-wasi = "=45.0.3"
tokio = { version = "=1.54.1", features = ["rt", "macros"] }
