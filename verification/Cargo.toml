[package]
name = "ddc_validator"
version = "0.1.0"
edition = "2021"
publish = false

[dependencies]
parity-scale-codec = { version = "=3.7.5", features = ["derive"] }
serde = { version = "=1.0.229", features = ["derive"] }
serde_json = "=1.0.154"
frame-support = "*"
frame-system = "*"
sp-runtime = "*"
sp-io = "*"
sp-core = "*"
scale-info = { version = "2", features = ["derive"] }
log = "0.4"
