[package]
name = "standing_tracker"
version = "0.1.0"
edition = "2021"
publish = false

[dependencies]
chrono = "0.4"
teloxide = { version = "*", features = ["macros"] }
tokio = { version = "*", features = ["full"] }
sqlx = { version = "*", default-features = false, features = ["runtime-tokio", "sqlite"] }
serde = { version = "*", features = ["derive"] }
serde_json = "*"
reqwest = { version = "*", default-features = false, features = ["json", "rustls-tls"] }
log = "*"
pretty_env_logger = "*"
dotenv = "*"
dptree = "*"
takecell = "=0.1.1"
