[package]
name = "codingame"
version = "0.1.0"
edition = "2021"
publish = false

[dependencies]
mdka = "*"
tera = "1"
serde = { version = "1", features = ["derive"] }
serde_json = "1"
toml = "*"
clap = { version = "4", features = ["derive"] }
thiserror = "*"
tokio = { version = "1", features = ["macros", "rt-multi-thread"] }
reqwest = { version = "*", default-features = false, features = ["json"] }
