[package]
name = "arexibo"
version = "0.1.0"
edition = "2021"
publish = false

[dependencies]
anyhow = "1"
elementtree = "1"
log = "0.4"
serde = { version = "1", features = ["derive"] }
serde_json = "1"
time = { version = "0.3", features = ["parsing", "formatting", "local-offset", "macros", "serde"] }
