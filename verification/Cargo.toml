[package]
name = "loodsenboekje"
version = "0.1.0"
edition = "2021"
publish = false

[dependencies]
bcrypt = "*"
serde = { version = "1", features = ["derive"] }
serde_json = "1"
chrono = { version = "0.4", features = ["serde"] }
axum = "*"
tokio = { version = "1", features = ["macros", "rt-multi-thread", "net"] }
sqlx = { version = "0.8", default-features = false, features = ["sqlite", "runtime-tokio", "chrono"] }
tower-sessions = "*"
tower-http = { version = "*", features = ["fs"] }
log = "0.4"
simplelog = "*"
dotenvy = "*"
csv = "*"
