[package]
name = "fault_manager"
version = "0.1.0"
edition = "2021"
publish = false

[dependencies]
iceoryx2 = "=0.8.1"
iceoryx2-bb-container = "=0.8.1"
iceoryx2-loggers = "=0.8.1"
sha2 = "=0.10.9"
serde = { version = "1", features = ["derive"] }
serde_json = "=1.0.154"
thiserror = "2"
tracing = "0.1"
tracing-subscriber = { version = "0.3", features = ["env-filter"] }
clap = { version = "4", features = ["derive"] }
