[package]
name = "omnitrace"
version = "0.1.0"
edition = "2021"
publish = false

[dependencies]
async-trait = "0.1"
blake3 = { version = "1", features = ["pure"] }
glob = "0.3"
globset = "0.4"
hashbrown = "*"
libc = "0.2"
log = "0.4"
serde = { version = "1", features = ["derive"] }
serde_json = "1"
tokio = { version = "1", features = ["macros", "rt-multi-thread", "signal", "sync", "time"] }
tokio-util = "0.7"
