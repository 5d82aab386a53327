[package]
name = "devtoolinstaller"
version = "0.1.0"
edition = "2021"
publish = false

[dependencies]
anyhow = "*"
clap = { version = "*", features = ["derive"] }
crossterm = "*"
directories = "*"
env_logger = "*"
flate2 = "*"
log = "*"
prettytable-rs = "*"
regex = "*"
reqwest = { version = "*", default-features = false, features = ["blocking", "json", "rustls-tls"] }
serde = { version = "*", features = ["derive"] }
serde_json = "*"
tar = "*"
toml = "*"
which = "*"
zip = "*"
