[package]
name = "rustytime"
version = "0.1.0"
edition = "2021"
publish = false

[dependencies]
time = { version = "=0.3.55", features = ["formatting", "parsing", "macros"] }
time-tz = "=2.0.0"
uuid = { version = "=1.29.0", features = ["v7"] }
anyhow = "1"
clap = { version = "4", features = ["derive"] }
dirs = "5"
dotenv = "0.15"
serde = { version = "1", features = ["derive"] }
serde_json = "1"
sqlx = { version = "0.8", default-features = false, features = ["sqlite", "runtime-tokio", "migrate"] }
tokio = { version = "1", features = ["macros", "rt-multi-thread"] }
