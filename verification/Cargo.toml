[package]
name = "curtailment_pipeline"
version = "0.1.0"
edition = "2021"
publish = false

[dependencies]
polars = { version = "=0.55.2", default-features = false, features = ["lazy", "parquet", "strings", "temporal", "regex"] }
scraper = "*"
reqwest = { version = "*", default-features = false, features = ["rustls-tls"] }
tokio = { version = "*", default-features = false, features = ["rt-multi-thread", "macros"] }
chrono = "*"
