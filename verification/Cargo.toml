[package]
name = "swmr_file"
version = "0.1.0"
edition = "2021"
publish = false

[dependencies]
slice-ring-buffer = "*"
range-set-blaze = "*"
sync_file = "*"
camino = "*"
futures-util = "*"
tokio = { version = "1", features = ["rt", "rt-multi-thread", "sync", "io-util", "macros"] }

[dev-dependencies]
tempfile = "*"
