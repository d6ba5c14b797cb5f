[package]
name = "zeroterm"
version = "0.1.0"
edition = "2021"
publish = false

[dependencies]
anyhow = "1"
chrono = "0.4"
crossterm = "0.28"
google-gmail1 = "6"
hyper-rustls = "0.27"
hyper-util = "0.1"
imap = { version = "3.0.0-alpha.15", default-features = false, features = ["rustls-tls"] }
imap-proto = "0.16"
mailparse = "0.16"
ratatui = "0.29"
regex = "1"
serde = { version = "1", features = ["derive"] }
toml = "0.8"
urlencoding = "2"
xdg = "2"
yup-oauth2 = "11"
