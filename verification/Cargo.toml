[package]
name = "fioxa"
version = "0.1.0"
edition = "2021"
publish = false

[dependencies]
bit_field = "=0.10.3"
x86_64 = { version = "=0.15.5", default-features = false }
serde = { version = "=1.0.229", features = ["derive"] }
thiserror = "=2.0.21"
hashbrown = "=0.15.5"
anyhow = "=1.0.104"
log = "=0.4.35"
elf = "=0.7.4"
numeric-sort = "=0.1.5"
cargo_metadata = "*"
uefi = "*"
