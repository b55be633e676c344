[package]
name = "partermai"
version = "0.1.0"
edition = "2021"
publish = false

[dependencies]
rand = "*"
chrono = "*"
colored = "*"
dirs = "*"
dotenv = "*"
reqwest = { version = "*", default-features = false, features = ["json"] }
rustyline = "*"
serde = { version = "*", features = ["derive"] }
serde_json = "*"
syntect = "*"
tokio = { version = "*", features = ["macros", "rt-multi-thread"] }
