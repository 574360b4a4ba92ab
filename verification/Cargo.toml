[package]
name = "flake_pilot"
version = "0.1.0"
edition = "2021"
publish = false

[dependencies]
serde = { version = "*", features = ["derive"] }
serde_json = "*"
serde_yaml = "*"
shell-words = "*"
ubyte = "*"
libc = "*"
vsock = "*"
sys-mount = "*"
system_shutdown = "*"
pty = "*"
tempfile = "*"
uzers = "*"
atty = "*"
which = "*"
ini = "*"
