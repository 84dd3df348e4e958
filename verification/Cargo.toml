[package]
name = "termotion"
version = "0.1.0"
edition = "2021"
publish = false

[dependencies]
unicode-segmentation = "1"
unicode-width = "0.2"
rand = "*"
rand_chacha = "*"
png = "*"
serde = { version = "1", features = ["derive"] }
serde_yaml_ng = "*"
serde_json = "1"
marked-yaml = "*"
clap = { version = "4", features = ["derive"] }
clap_complete = "4"
cosmic-text = "*"
