[package]
name = "sujood"
version = "0.1.0"
edition = "2021"
publish = false

[dependencies]
anyhow = "*"
chrono = "*"
clap = { version = "*", features = ["derive"] }
directories = "*"
hijri_date = "*"
rusqlite = { version = "*", features = ["bundled"] }
salah = "*"
serde = { version = "*", features = ["derive"] }
toml = "*"
