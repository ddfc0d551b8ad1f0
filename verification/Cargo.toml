[package]
name = "rustoki"
version = "0.1.0"
edition = "2021"
publish = false

[dependencies]
chrono = "0.4"
deunicode = "1"
dotenvy = "0.15"
image = { version = "0.25", default-features = false, features = ["png", "jpeg", "gif", "webp"] }
once_cell = "1"
reqwest = "0.12"
serde_json = "1"
serenity = "0.12"
shell-words = "1"
sqlx = { version = "0.8", default-features = false, features = ["mysql", "runtime-tokio", "chrono", "macros"] }
tokio = { version = "1", features = ["full"] }
