[package]
name = "mongodex"
version = "0.1.0"
edition = "2021"
publish = false

[dependencies]
anyhow = "1"
bincode = "1"
clap = "2"
colored = "2"
dialoguer = "0.8"
directories = "3"
lazy_static = "1"
mongodb = "2.8"
os_pipe = "0.9"
serde = { version = "1", features = ["derive"] }
shaku = "0.5"
sled = "0.34"
sqlx = { version = "0.5", default-features = false, features = ["sqlite", "runtime-tokio-rustls"] }
thiserror = "1"
tokio = { version = "1", features = ["rt", "time"] }
