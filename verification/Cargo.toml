[package]
name = "fluxdown"
version = "0.1.0"
edition = "2021"
publish = false

[dependencies]
arboard = { version = "3", default-features = false }
chrono = { version = "0.4", default-features = false, features = ["clock"] }
directories = "6"
futures-util = "0.3"
regex = "1"
reqwest = { version = "0.12", default-features = false, features = ["json"] }
serde_json = "1"
thiserror = "2"
tokio = { version = "1", features = ["macros", "net", "process", "rt-multi-thread", "signal", "sync", "time"] }
tokio-util = { version = "0.7", features = ["rt"] }
tracing = "0.1"
uuid = { version = "1", features = ["v4"] }
