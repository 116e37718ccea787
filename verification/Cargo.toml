[package]
name = "vibecode"
version = "0.1.0"
edition = "2021"
publish = false

[dependencies]
anyhow = "=1.0.104"
darling = "=0.24.1"
proc-macro2 = "=1.0.107"
quote = "=1.0.47"
serde = { version = "=1.0.229", features = ["derive"] }
syn = { version = "=3.0.9", features = ["full"] }
thiserror = "=2.0.21"
ureq = { version = "=3.5.0", default-features = false, features = ["json"] }
