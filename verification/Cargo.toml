[package]
name = "strand_software_rasterizer"
version = "0.1.0"
edition = "2021"
publish = false

[dependencies]
range-alloc = "=0.1.5"
serde = { version = "=1.0.229", features = ["derive"] }
serde_json = "=1.0.154"
bytemuck = { version = "=1.25.2", features = ["derive"] }
fluent-uri = { version = "=0.3.2", features = ["serde"] }
anyhow = "=1.0.104"
