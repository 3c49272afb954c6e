[package]
name = "noraneko_winupdater"
version = "0.1.0"
edition = "2021"
publish = false

[dependencies]
serde = { version = "*", features = ["derive"] }
serde_json = "*"
sha2 = "*"
time = { version = "*", features = ["formatting", "macros"] }
ureq = "*"
walkdir = "*"
zip = "*"
