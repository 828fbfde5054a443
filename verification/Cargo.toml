[package]
name = "bakery_data"
version = "0.1.0"
edition = "2021"
publish = false

[dependencies]
actix-web = { version = "=4.15.0", default-features = false, features = ["macros", "ws", "http2"] }
anyhow = "1"
async-graphql = "=5.0.10"
async-graphql-actix-web = "=5.0.10"
dotenvy = "=0.15.7"
sea-orm = { version = "=0.10.7", features = ["macros", "mock"] }
sea-query = "=0.27.2"
tokio = { version = "=1.53.2", features = ["macros", "rt-multi-thread"] }
