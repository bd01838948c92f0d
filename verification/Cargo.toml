[package]
name = "gts_transport"
version = "0.1.0"
edition = "2021"
publish = false

[dependencies]
minstant = "*"
libc = "*"
log = "*"
env_logger = "*"
core_affinity = "*"
serde = { version = "*", features = ["derive"] }

[dev-dependencies]
arrayvec = "*"
