[package]
name = "vectorize"
version = "0.1.0"
edition = "2021"
publish = false

[dependencies]
uuid = { version = "=1.27.0", features = ["v4"] }
chrono = "=0.4.45"
zip = "=8.6.0"
vtracer = "=0.6.5"
visioncortex = "=0.8.10"
image = "*"
serde = { version = "*", features = ["derive"] }
serde_json = "*"
actix-web = "*"
actix-multipart = "*"
actix-cors = "*"
futures = "*"
tokio = { version = "*", features = ["rt-multi-thread", "time", "macros"] }
env_logger = "*"
dotenv = "*"
log = "*"
tempfile = "*"
thiserror = "*"
