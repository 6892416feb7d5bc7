[package]
name = "notion_llm"
version = "0.1.0"
edition = "2021"
publish = false

[dependencies]
uuid = { version = "1", features = ["v5"] }
qdrant-client = "*"
reqwest = { version = "*", features = ["json"] }
serde_json = "*"
tokio = { version = "*", features = ["macros", "rt-multi-thread"] }
log = "*"
env_logger = "*"
