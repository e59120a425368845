[package]
name = "folio"
version = "0.2.0"
edition = "2021"
publish = false

[dependencies]
anyhow = "1"
chrono = "0.4"
clap = { version = "4", features = ["derive"] }
crossterm = "*"
directories = "*"
dirs = "*"
inquire = "*"
ratatui = "*"
reqwest = { version = "*", default-features = false }
roxmltree = "*"
serde = { version = "1", features = ["derive"] }
tera = "1"
tokio = { version = "1", features = ["macros", "rt-multi-thread", "sync", "time"] }
toml = "*"
urlencoding = "*"
