[package]
name = "fasttq"
version = "0.1.0"
edition = "2021"
publish = false

[dependencies]
uuid = { version = "1", features = ["v4", "serde"] }
time = { version = "0.3", features = ["formatting", "parsing", "serde"] }
serde_json = "1"
serde = { version = "1", features = ["derive"] }
async-trait = "0.1"
axum = "0.7"
tokio = { version = "1", features = ["rt-multi-thread", "macros", "net", "sync"] }
sqlx = { version = "0.8", default-features = false, features = ["runtime-tokio", "postgres", "uuid", "time", "json"] }
lapin = "2"
tracing = "0.1"
tracing-subscriber = "0.3"
dotenv = "0.15"
