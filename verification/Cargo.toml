[package]
name = "bulldog"
version = "0.1.0"
edition = "2021"
publish = false

[dependencies]
log = "0.4"
spin = "0.9"
x86_64 = { version = "0.15", default-features = false, features = ["instructions"] }
noto-sans-mono-bitmap = "*"
linked_list_allocator = "0.10"
bootloader_api = "0.11"
