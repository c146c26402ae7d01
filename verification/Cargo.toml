[package]
name = "ax_gpt"
version = "0.1.0"
edition = "2021"
publish = false

[dependencies]
chrono = { version = "0.4", features = ["serde"] }
config = { version = "0.13", default-features = false, features = ["json"] }
serde = { version = "1", features = ["derive"] }
serde_json = "1"
thiserror = "1"
reqwest = { version = "0.11", default-features = false, features = ["blocking", "rustls-tls"] }
eventsource-client = "0.11"
futures = "0.3"
async-stream = "0.3"
tokio = { version = "1", features = ["macros", "rt-multi-thread"] }
bat = { version = "0.24", default-features = false, features = ["regex-fancy"] }
iter-read = "*"
colored = "2"
env_logger = "0.10"
log = "0.4"
libc = "0.2"
