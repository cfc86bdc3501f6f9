[package]
name = "dupewatch"
version = "0.1.0"
edition = "2021"
publish = false

[dependencies]
dotenv = "=0.15.0"
redis = "=1.7.1"
serenity = { version = "=0.12.5", features = ["collector"] }
tokio = { version = "=1.53.2", features = ["macros", "rt-multi-thread"] }
