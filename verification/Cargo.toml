[package]
name = "community_auth"
version = "0.1.0"
edition = "2021"
publish = false

[dependencies]
actix-files = "0.6"
actix-rt = "2"
actix-web = "4"
bcrypt = "0.15"
chrono = "0.4"
diesel = { version = "1.4", features = ["postgres", "chrono"] }
dotenv = "0.15"
jsonwebtoken = "9"
serde = { version = "1", features = ["derive"] }
serde_json = { version = "1", features = ["preserve_order"] }
uuid = { version = "1", features = ["v4"] }
