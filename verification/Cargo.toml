[package]
name = "fanotify_perm_fix"
version = "0.1.0"
edition = "2021"
publish = false

[dependencies]
env_logger = "*"
libc = "*"
log = "*"
nix = { version = "*", features = ["fs", "user"] }
serde = { version = "*", features = ["derive"] }
toml = "*"
