[package]
name = "bump_allocator"
version = "0.1.0"
edition = "2021"
publish = false

[dependencies]
axallocator = { version = "=0.2.0", default-features = false, features = ["tlsf"] }
axlog = { version = "=0.3.0-preview.3", features = ["std"] }
axhal = "=0.3.0-preview.3"
axmm = "=0.3.0-preview.3"
axstd = "=0.3.0-preview.3"
axsync = "=0.3.0-preview.3"
