[package]
name = "noobest_rt"
version = "0.1.0"
edition = "2021"
publish = false

[dependencies]
chrono = "*"
egg-mode = "*"
log = "*"
mongodb = "*"
serde = { version = "*", features = ["derive"] }
simple_logger = "*"
thiserror = "*"
tokio = { version = "*", features = ["macros", "rt-multi-thread", "time"] }
