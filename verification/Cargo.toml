[package]
name = "ip_poller"
version = "0.1.0"
edition = "2021"
publish = false

[dependencies]
scraper = "=0.27.0"
chrono = "=0.4.45"
async-trait = "=0.1.92"
reqwest = { version = "=0.12.28", default-features = false, features = ["rustls-tls"] }
tokio = { version = "=1.53.2", features = ["macros", "rt-multi-thread"] }
duckdb = "=1.10506.0"
