[package]
name = "tahti_radio"
version = "0.1.0"
edition = "2021"
publish = false

[dependencies]
async-trait = "0.1"
envy = "0.4"
rand = "0.9"
serde = { version = "1", features = ["derive"] }
serenity = "0.12"
songbird = "0.5"
thiserror = "2"
tokio = { version = "1", features = ["macros", "rt-multi-thread", "sync", "time", "process"] }
tracing = "0.1"
