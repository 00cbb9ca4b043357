[package]
name = "movie_stats"
version = "0.1.0"
edition = "2021"
publish = false

[dependencies]
chrono = { version = "0.4", default-features = false, features = ["std", "serde"] }
csv = "1"
json = "0.12"
serde = { version = "1", features = ["derive"] }

[dev-dependencies]
itertools = "0.12"
rand = "0.8"
