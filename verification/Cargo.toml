[package]
name = "pets"
version = "0.1.0"
edition = "2021"
publish = false

[dependencies]
clap = { version = "=4.6.7", features = ["derive"] }
env_logger = "=0.11.11"
home-dir = "=0.1.0"
log = "=0.4.34"
merkle_hash = { version = "=3.9.0", features = ["sha"] }
thiserror = "=2.0.21"
users = "=0.11.0"
walkdir = "=2.5.0"
