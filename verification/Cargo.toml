[package]
name = "whoamifuck"
version = "0.1.0"
edition = "2021"
publish = false

[dependencies]
anyhow = "1"
askama = "0.12"
byte-unit = "5"
chrono = "0.4"
clap = { version = "4", features = ["derive"] }
clap_complete = "4"
colored = "2"
mac_address = "1"
regex = "1"
reqwest = { version = "0.12", default-features = false, features = ["rustls-tls"] }
self_update = { version = "0.41", default-features = false, features = ["rustls"] }
semver = "1"
sysinfo = "0.29"
tokio = { version = "1", features = ["macros", "rt-multi-thread"] }
url = "2"
