[package]
name = "simulation"
version = "0.1.0"
edition = "2021"
publish = false

[dependencies]
rand = { version = "0.7", features = ["small_rng"] }
rand_distr = "0.2"
bytes = "0.4"
futures-preview = { version = "=0.3.0-alpha.19", features = ["async-await"] }
tokio = "=0.2.0-alpha.6"
tokio-executor = "=0.2.0-alpha.6"
tokio-net = "=0.2.0-alpha.6"
tokio-timer = "=0.3.0-alpha.6"
tokio-sync = "=0.2.0-alpha.6"
tokio-io = "=0.2.0-alpha.6"
async-trait = "0.1"
try-lock = "0.2"
