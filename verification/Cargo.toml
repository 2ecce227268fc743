[package]
name = "bdt"
version = "0.1.0"
edition = "2021"
publish = false

[dependencies]
comfy-table = { version = "=8.0.1", default-features = false }
datafusion = { version = "=55.2.0", default-features = false, features = ["parquet"] }
structopt = "=0.3.26"
thiserror = "=2.0.21"
tokio = { version = "=1.54.1", features = ["macros", "rt-multi-thread"] }
