[package]
name = "dragon_claw_agent"
version = "0.1.0"
edition = "2021"
publish = false

[dependencies]
tokio = { version = "1", features = ["rt", "macros", "time", "signal", "net", "sync", "io-util"] }
socket2 = "0.5"
zbus = "3"
libc = "0.2"
