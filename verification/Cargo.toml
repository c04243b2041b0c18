[package]
name = "qa_pipeline"
version = "0.1.0"
edition = "2021"
publish = false

[dependencies]
serde = "1"
serde_json = "=1.0.151"
log = "0.4"
chrono = "=0.4.45"
dotenv = "0.15"
tokio = { version = "1", features = ["macros", "rt"] }
async-openai = { version = "=0.42.1", features = ["chat-completion"] }
airtable-flows = "*"
flowsnet-platform-sdk = "*"
schedule-flows = "*"
