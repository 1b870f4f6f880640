[package]
name = "tinywatcher"
version = "0.1.0"
edition = "2021"
publish = false

[dependencies]
regex = "*"
hostname = "*"
chrono = "*"
clap = { version = "*", features = ["derive"] }
glob = "*"
lettre = { version = "*", default-features = false, features = ["sendmail-transport", "builder"] }
reqwest = { version = "*", default-features = false, features = ["blocking", "json"] }
serde = { version = "*", features = ["derive"] }
serde_json = "*"
serde_yaml = "*"
sysinfo = "*"
tokio = { version = "*", features = ["rt-multi-thread", "macros", "process", "io-util", "time", "net", "sync", "signal"] }
tokio-tungstenite = "*"
futures-util = "*"
