[package]
name = "shop_backend"
version = "0.1.0"
edition = "2021"
publish = false

[dependencies]
actix-files = "0.6"
actix-session = { version = "*", features = ["cookie-session"] }
actix-web = { version = "4", default-features = false, features = ["macros", "cookies", "secure-cookies"] }
bcrypt = "*"
chrono = { version = "0.4", features = ["serde"] }
dotenv = "0.15"
log = "0.4"
serde = { version = "1", features = ["derive"] }
serde_json = "1"
tokio = { version = "1", features = ["fs", "io-util", "sync"] }
utoipa = "*"
utoipa-swagger-ui = { version = "*", features = ["actix-web", "vendored"] }
uuid = { version = "1", features = ["v4", "serde"] }
webbrowser = "*"
