[package]
name = "yagcdn"
version = "0.1.0"
edition = "2021"
publish = false

[dependencies]
actix-files = "*"
actix-web = { version = "*", default-features = false, features = ["macros"] }
awc = { version = "*", default-features = false }
clap = { version = "*", features = ["derive"] }
mime_guess = "*"
serde = { version = "*", features = ["derive"] }
thiserror = "*"
tokio = { version = "*", features = ["sync"] }
tracing = "*"
tracing-actix-web = "*"
tracing-subscriber = { version = "*", features = ["env-filter", "fmt"] }
