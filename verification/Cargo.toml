[package]
name = "no_spam"
version = "0.1.0"
edition = "2021"
publish = false

[dependencies]
anyhow = "*"
google-gmail1 = "*"
hyper = "*"
hyper-rustls = "*"
structopt = "*"
tokio = { version = "*", features = ["macros", "rt-multi-thread"] }
yup-oauth2 = "*"
