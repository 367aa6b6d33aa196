[package]
name = "actor_system"
version = "0.1.0"
edition = "2021"
publish = false

[dependencies]
anyhow = "=1.0.104"
crossbeam-channel = "=0.5.17"
crossbeam-queue = "=0.3.14"
delegate = "=0.13.5"
derivative = "=2.2.0"
eframe = { version = "=0.24.1", default-features = false, features = ["glow", "default_fonts"] }
ensnare = { version = "=0.0.3", default-features = false, features = ["std"] }
ensnare-proc-macros = "=0.0.8"
env_logger = "=0.11.11"
hound = "=3.5.1"
serde = { version = "=1.0.229", features = ["derive"] }
