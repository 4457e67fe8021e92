[package]
name = "mood_player"
version = "0.1.0"
edition = "2021"
publish = false

[dependencies]
chrono = "*"
chrono-tz = "*"
rand = "*"
rand_distr = "*"
reqwest = { version = "*", default-features = false }
serde = { version = "*", features = ["derive"] }
serde_json = "*"
dotenv = "*"
tokio = { version = "*", features = ["macros", "rt-multi-thread"] }
