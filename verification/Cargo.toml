[package]
name = "anime_cluster"
version = "0.1.0"
edition = "2021"
publish = false

[dependencies]
csv = "1"
fxhash = "0.2"
rayon = "1"
serde = { version = "1", features = ["derive"] }
serde_json = "1"
config = "*"
dotenvy = "*"
