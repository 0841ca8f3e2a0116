[package]
name = "riverbank"
version = "0.1.0"
edition = "2021"
publish = false

[dependencies]
async-std = { version = "1", features = ["attributes"] }
async-trait = "0.1"
chrono = { version = "=0.4.45", features = ["serde"] }
deltalake = { version = "=0.4.0", features = ["s3"] }
dotenv = "0.15"
handlebars = { version = "4", features = ["dir_source"] }
log = "0.4"
pretty_env_logger = "0.4"
regex = "=1.13.1"
rusoto_core = "=0.46.0"
rusoto_credential = "=0.46.0"
rusoto_s3 = "=0.46.0"
serde = { version = "1", features = ["derive"] }
serde_json = "=1.0.154"
serde_qs = "0.8"
serde_yaml = "0.8"
tide = { version = "0.16", default-features = false, features = ["h1-server"] }
tide-http-auth = "0.5"
uuid = { version = "=0.8.2", features = ["serde", "v4"] }
