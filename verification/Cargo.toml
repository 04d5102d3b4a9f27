[package]
name = "tabletbot"
version = "0.1.0"
edition = "2021"
publish = false

[dependencies]
regex = "=1.13.1"
hex = "=0.4.3"
to-arraystring = "=0.2.2"
serenity = "=0.12.5"
poise = "=0.6.2"
octocrab = "=0.40.0"
reqwest = { version = "=0.11.27", default-features = false, features = ["rustls-tls"] }
tokio = { version = "1", features = ["macros", "rt-multi-thread"] }
serde = { version = "1", features = ["derive"] }
serde_json = "1"
chrono = "0.4"
futures = "0.3"
