[package]
name = "convert_invert"
version = "0.1.0"
edition = "2021"
publish = false

[dependencies]
anyhow = "1"
async-trait = "0.1"
diesel = { version = "2", default-features = false, features = ["postgres"] }
serde = { version = "1", features = ["derive"] }
serde_json = "1"
soulseek-rs-lib = "*"
str-distance = "*"
tokio = { version = "1", features = ["macros", "rt-multi-thread", "sync", "time"] }
