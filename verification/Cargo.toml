[package]
name = "koto"
version = "0.1.0"
edition = "2021"
publish = false

[dependencies]
base64 = "=0.23.1"
clap = { version = "=4.6.7", features = ["derive"] }
dotenv = "=0.15.0"
reqwest = { version = "=0.13.5", default-features = false, features = ["json", "query"] }
serde = { version = "=1.0.229", features = ["derive"] }
serde_json = "=1.0.151"
tokio = { version = "=1.53.2", features = ["rt", "macros", "time"] }
xdg = "=3.0.0"
