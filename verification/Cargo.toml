[package]
name = "rustsat"
version = "0.1.0"
edition = "2021"
publish = false

[dependencies]
sgp4 = "*"
chrono = "*"
map_3d = "*"
serde = { version = "*", features = ["derive"] }
serde_json = "*"
tokio = { version = "*", default-features = false, features = ["rt-multi-thread", "sync", "time"] }
reqwest = { version = "*", default-features = false, features = ["json"] }
