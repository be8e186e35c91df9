[package]
name = "sugata"
version = "0.1.0"
edition = "2021"
publish = false

[dependencies]
rand = "0.8"
indexmap = "1.9"
poise = "0.4"
tokio = { version = "1", features = ["macros", "rt-multi-thread"] }
futures = "0.3"
google-sheets4 = "4"
hyper = { version = "0.14", features = ["full"] }
hyper-rustls = "0.23"
yup-oauth2 = "7"
dotenv = "0.15"
env_logger = "0.10"
