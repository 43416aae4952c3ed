[package]
name = "gymbooking"
version = "0.1.0"
edition = "2021"
publish = false

[dependencies]
scraper = "*"
time = { version = "*", features = ["parsing", "formatting", "macros"] }
time-tz = { version = "*", features = ["db"] }
reqwest = { version = "*", default-features = false, features = ["blocking", "rustls-tls"] }
clap = { version = "*", features = ["derive"] }
serde = { version = "*", features = ["derive"] }
serde_json = "*"
dirs = "*"
