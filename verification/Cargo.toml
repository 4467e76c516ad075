[package]
name = "user_directory"
version = "1.0.0"
edition = "2021"
publish = false

[dependencies]
async-trait = "0.1"
env_logger = "0.11"
log = "0.4"
serde = { version = "1", features = ["derive"] }
thiserror = "1"
tokio = { version = "1", default-features = false, features = ["macros", "rt-multi-thread", "sync"] }
