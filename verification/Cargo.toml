[package]
name = "filehost"
version = "0.1.0"
edition = "2021"
publish = false

[dependencies]
rand = "=0.8.8"
rocket = { version = "=0.5.1", features = ["json"] }
rocket_db_pools = { version = "=0.2.0", features = ["sqlx_postgres"] }
figment = { version = "=0.10.19", features = ["json"] }
