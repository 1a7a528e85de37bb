[package]
name = "orangu-server"
version = "0.1.0"
edition = "2021"
publish = false

[dependencies]
anyhow = "1"
async-stream = "0.3"
axum = "0.8"
bytemuck = { version = "1", features = ["derive"] }
clap = { version = "4", features = ["derive"] }
half = "2"
home = "0.5"
memmap2 = "0.9"
rand = "0.9"
regex = "1"
rustyline = "*"
serde = { version = "1", features = ["derive"] }
serde_json = "1"
sysinfo = "*"
tokio = { version = "1", features = ["full"] }
uuid = { version = "1", features = ["v4", "serde"] }
wgpu = "*"

[dev-dependencies]
tempfile = "3"
