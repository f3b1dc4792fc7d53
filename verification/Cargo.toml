[package]
name = "budget_master_9000"
version = "1.2.0"
edition = "2021"
publish = false

[dependencies]
argon2 = { version = "=0.5.3", features = ["std"] }
chrono = "=0.4.45"
dirs = "=5.0.1"
rusqlite = { version = "=0.32.1", features = ["bundled"] }
serde = { version = "=1.0.229", features = ["derive"] }
serde_json = "=1.0.154"
thiserror = "=1.0.69"
rand_core = { version = "=0.6.4", features = ["getrandom"] }
ureq = "=2.12.1"
zip = { version = "=2.6.1", default-features = false, features = ["deflate"] }
