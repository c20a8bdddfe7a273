[package]
name = "chat_moderator"
version = "0.1.0"
edition = "2021"
publish = false

[dependencies]
serde_json = "=1.0.154"
uuid = { version = "=1.29.0", features = ["v4"] }
teloxide = "=0.17.0"
takecell = "=0.1.1"
tokio = { version = "=1.54.1", features = ["rt-multi-thread", "macros"] }
gemini_client_rs = "=0.4.0"
dotenvy = "=0.15.7"
log = "=0.4.34"
pretty_env_logger = "=0.5.0"
