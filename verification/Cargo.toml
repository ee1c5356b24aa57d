[package]
name = "serum_iq"
version = "0.1.0"
edition = "2021"
publish = false

[dependencies]
anyhow = "=1.0.104"
chrono = "=0.4.45"
env_logger = "=0.10.2"
log = "=0.4.34"
rdkafka = "=0.28.0"
solana-sdk = "=1.18.26"
tokio = { version = "=1.54.1", features = ["macros", "rt-multi-thread"] }

[dev-dependencies]
safe-transmute = "=0.11.3"
serum_dex = "=0.5.4"
