[package]
name = "memeshare"
version = "0.1.0"
edition = "2021"
publish = false

[dependencies]
bcrypt = "=0.19.3"
jsonwebtoken = { version = "=11.1.0", features = ["rust_crypto"] }
validator = "=0.21.0"
chrono = "=0.4.45"
uuid = { version = "=1.27.0", features = ["v4"] }
serde = { version = "*", features = ["derive"] }
serde_json = "*"
actix-web = "*"
actix-cors = "*"
actix-files = "*"
actix-multipart = "*"
actix-web-httpauth = "*"
futures-util = "*"
dotenv = "*"
