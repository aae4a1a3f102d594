[package]
name = "robot_detect"
version = "0.1.0"
edition = "2021"
publish = false

[dependencies]
anyhow = "1"
clap = "=3.2.25"
tokio = { version = "1", features = ["macros", "rt-multi-thread"] }
serde = { version = "1", features = ["derive"] }
serde_json = "1"
rclrust = "*"
rclrust-msg = "*"
eframe = { version = "=0.23.0", default-features = false, features = ["default_fonts", "glow"] }
egui = "=0.23.0"
egui_extras = "=0.23.0"
env_logger = "0.10"
image = { version = "0.24", default-features = false, features = ["jpeg", "png"] }
