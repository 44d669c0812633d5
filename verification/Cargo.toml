[package]
name = "ground_heatmap"
version = "0.1.0"
edition = "2021"
publish = false

[dependencies]
image = { version = "0.25", default-features = false, features = ["png", "jpeg"] }
chrono = { version = "0.4", default-features = false, features = ["std", "clock"] }
csv = "1"
notify = "*"
rayon = "1"
serde = { version = "1", features = ["derive"] }
tokio = { version = "1", features = ["rt-multi-thread", "macros", "sync"] }
