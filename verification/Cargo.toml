[package]
name = "elhem"
version = "0.1.0"
edition = "2021"
publish = false

[dependencies]
base64 = "*"
chrono = "*"
http = "*"
inline_colorization = "*"
mime = "*"
reqwest = { version = "*", default-features = false, features = ["cookies"] }
serde = { version = "*", features = ["derive"] }
serde_json = "*"
tokio = { version = "*", features = ["macros", "rt-multi-thread", "time"] }
