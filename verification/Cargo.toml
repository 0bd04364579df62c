[package]
name = "git_image_review"
version = "0.1.0"
edition = "2021"
publish = false

[dependencies]
base64 = "0.22"
serde = { version = "1", features = ["derive"] }

[dev-dependencies]
tempfile = "3"
