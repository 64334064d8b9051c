[package]
name = "wtf"
version = "0.1.0"
edition = "2021"
publish = false

[dependencies]
anyhow = "=1.0.104"
bitcoin = "=0.30.3"
bitcoincore-rest = "=4.0.2"
chrono = { version = "=0.4.45", default-features = false, features = ["std", "now"] }
clap = { version = "=4.6.7", default-features = false, features = ["std", "derive", "help", "usage", "error-context"] }
polars = { version = "=0.55.2", default-features = false, features = ["parquet"] }
tokio = { version = "=1.54.1", features = ["macros", "rt-multi-thread", "time"] }
tracing = "=0.1.44"
tracing-subscriber = { version = "=0.3.23", default-features = false, features = ["std", "fmt", "env-filter"] }
