[package]
name = "download_bot"
version = "0.1.0"
edition = "2021"
publish = false

[dependencies]
log = "=0.4.34"
pretty_env_logger = "=0.5.0"
# Not used directly: teloxide-core depends on takecell, and takecell 0.1.2
# asks for a newer compiler than teloxide 0.12 is built with here.
takecell = "=0.1.1"
teloxide = { version = "=0.12.2", features = ["macros", "webhooks-axum"] }
tokio = { version = "=1.54.1", features = ["rt-multi-thread", "macros", "sync"] }
