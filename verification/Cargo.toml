[package]
name = "lt_ai_coach_exporter"
version = "0.1.0"
edition = "2021"
publish = false

[dependencies]
serde_json = "1"
