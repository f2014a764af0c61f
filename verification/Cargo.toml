[package]
name = "recipe_browser"
version = "0.1.0"
edition = "2021"
publish = false

[dependencies]
serde = { version = "1", features = ["derive"] }
serde_json = "1"
reqwest = { version = "0.11", default-features = false, features = ["json"] }
tokio = { version = "1", features = ["rt-multi-thread"] }
eframe = { version = "0.22", default-features = false, features = ["glow", "persistence"] }
egui = "0.22"
