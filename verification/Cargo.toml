[package]
name = "gcra"
version = "0.1.0"
edition = "2021"
publish = false

[dependencies]
rustix = { version = "*", features = ["time"] }
thingvellir = "*"
thiserror = "*"
tokio = { version = "*", features = ["time", "rt", "sync"] }
