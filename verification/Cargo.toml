[package]
name = "tgpingbot"
version = "0.1.0"
edition = "2021"
publish = false

[dependencies]
clap = { version = "=4.6.7", features = ["derive"] }
dptree = "=0.5.1"
serde = { version = "=1.0.229", features = ["derive"] }
serde_yml = "=0.0.13"
sqlx = { version = "=0.9.0", default-features = false, features = ["runtime-tokio", "sqlite", "derive", "macros"] }
takecell = "=0.1.1"
teloxide = { version = "=0.17.0", default-features = false, features = ["rustls", "macros", "ctrlc_handler", "webhooks-axum", "throttle", "cache-me"] }
tokio = { version = "=1.53.2", features = ["macros", "rt-multi-thread"] }
tracing = "=0.1.44"
tracing-subscriber = { version = "=0.3.23", features = ["env-filter"] }
url = { version = "=2.5.8", features = ["serde"] }
