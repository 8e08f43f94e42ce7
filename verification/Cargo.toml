[package]
name = "ardupilot_bridge"
version = "0.1.0"
edition = "2021"
publish = false

[dependencies]
anyhow = "1"
byteorder = "1"
clap = { version = "4", features = ["derive", "env"] }
fastrand = "2"
futures-lite = "2"
libc = "0.2"
stellarator = "*"
tracing = "0.1"
tracing-subscriber = "0.3"
zerocopy = { version = "0.8", features = ["derive"] }
