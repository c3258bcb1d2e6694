[package]
name = "org_readwise"
version = "0.1.0"
edition = "2021"
publish = false

[dependencies]
chrono = "0.4"
config = { version = "0.14", default-features = false, features = ["toml"] }
dotenv = "0.15"
md5 = "0.7"
once_cell = "1"
reqwest = { version = "0.12", default-features = false, features = ["json", "rustls-tls"] }
serde = { version = "1", features = ["derive"] }
serde_json = "1"
slug = "0.1"
tera = "1"
tokio = { version = "1", features = ["macros", "rt-multi-thread", "time"] }
url = "2"
urlencoding = "2"
uuid = { version = "1", features = ["v4"] }
