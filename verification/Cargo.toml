[package]
name = "autonomous_orchestrator"
version = "0.1.0"
edition = "2021"
publish = false

[dependencies]
lru = { version = "=0.18.5", default-features = false }
rand = "=0.10.3"
uuid = { version = "=1.27.0", features = ["v4"] }
time = { version = "=0.3.55", features = ["formatting"] }
num_cpus = "=1.17.0"
tokio = { version = "=1.53.2", features = ["rt-multi-thread", "macros", "time"] }
serde = { version = "=1.0.229", features = ["derive"] }
toml = "=1.1.7"
parking_lot = "=0.12.5"
