[package]
name = "rift"
version = "0.1.0"
edition = "2021"
publish = false

[dependencies]
arc-swap = "=1.9.3"
dirs = "=6.0.0"
dispatchr = "=1.0.0"
nix = { version = "=0.31.3", features = ["signal"] }
objc2-core-foundation = { version = "=0.3.2", default-features = false, features = ["std", "CFCGTypes"] }
objc2-core-graphics = { version = "=0.3.2", default-features = false, features = ["std", "CGDirectDisplay", "CGError", "CGEvent", "CGEventTypes", "CGRemoteOperation"] }
ron = "=0.12.3"
serde = { version = "=1.0.229", features = ["derive"] }
serde_with = "=3.24.0"
tempfile = "=3.27.0"
tokio = { version = "=1.54.1", features = ["macros", "rt", "sync", "time"] }
tokio-stream = "=0.1.19"
tracing = "=0.1.44"
