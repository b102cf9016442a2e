[package]
name = "myfocus"
version = "0.1.0"
edition = "2021"
publish = false

[dependencies]
chrono = "0.4"
feed-rs = "2"
nucleo-matcher = "0.3"
reqwest = { version = "0.12", default-features = false, features = ["rustls-tls"] }
rusqlite = { version = "0.32", features = ["bundled"] }
serde = { version = "1", features = ["derive"] }
serde_json = "1"
tokio = { version = "1", features = ["rt-multi-thread", "macros", "process", "time", "io-util", "sync"] }
