[package]
name = "lexivo"
version = "1.0.0"
edition = "2021"
publish = false

[dependencies]
rand = "*"
serde = { version = "*", features = ["derive"] }
serde_json = "*"
anyhow = "*"
log = "*"
env_logger = "*"
eframe = { version = "*", default-features = false, features = ["default_fonts", "glow", "x11", "persistence"] }
egui-phosphor = "*"
reqwest = { version = "*", default-features = false, features = ["blocking", "json"] }
