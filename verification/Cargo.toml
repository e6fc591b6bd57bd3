[package]
name = "creamy_cream"
version = "0.1.0"
edition = "2021"
publish = false

[dependencies]
dioxus = { version = "=0.7.10", default-features = false, features = ["router", "macro", "html", "hooks", "signals", "launch", "document", "asset"] }
dioxus-logger = "=0.7.10"
nlopt = "=0.8.1"
once_cell = "=1.21.4"
sea-orm = { version = "=2.0.4", default-features = false, features = ["macros", "sqlx-sqlite", "runtime-tokio", "schema-sync"] }
serde = { version = "=1.0.229", features = ["derive"] }
tracing = "=0.1.44"
