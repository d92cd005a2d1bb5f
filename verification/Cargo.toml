[package]
name = "desertstorm"
version = "0.1.0"
edition = "2021"
publish = false

[dependencies]
rand = "0.8"
pnet = "0.34"
clap = { version = "4", features = ["derive"] }
tokio = { version = "1", features = ["rt-multi-thread", "macros", "net", "time", "io-util"] }
serde = { version = "1", features = ["derive"] }
serde_json = "1"
chrono = "0.4"
crossbeam = "0.8"
libc = "0.2"
