[package]
name = "note_secretary"
version = "0.1.0"
edition = "2021"
publish = false

[dependencies]
zip = { version = "=6.0.0", default-features = false, features = ["aes-crypto"] }
serde = { version = "=1.0.229", features = ["derive"] }
serde_json = "=1.0.154"
mime_guess = "=2.0.5"
percent-encoding = "=2.3.2"
data-url = "=0.3.2"
thiserror = "=2.0.21"
futures = "=0.3.34"
anyhow = "=1.0.104"
sea-orm = { version = "=2.0.4", default-features = false, features = ["macros", "sqlx-sqlite", "runtime-tokio-rustls", "schema-sync"] }
