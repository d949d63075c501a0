[package]
name = "splat_convert"
version = "0.1.0"
edition = "2021"
publish = false

[dependencies]
rand = "=0.8.8"
half = "=2.7.1"
nalgebra = { version = "=0.33.3", features = ["serde-serialize"] }
ply-rs = "=0.1.3"
clap = { version = "=4.6.7", features = ["derive"] }
serde = { version = "=1.0.229", features = ["derive"] }
serde_json = "=1.0.151"
anyhow = "=1.0.104"
humansize = "=2.1.3"
tabled = "=0.15.0"
