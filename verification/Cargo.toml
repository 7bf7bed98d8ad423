[package]
name = "nodebook"
version = "0.1.0"
edition = "2021"
publish = false

[dependencies]
ring = "=0.17.14"
regex = "=1.13.1"
serde_json = "=1.0.154"
urlencoding = "=2.1.3"
uuid = { version = "=1.29.0", features = ["v4"] }
serde = { version = "=1.0.229", features = ["derive"] }
toml = "=0.8.23"
chrono = "=0.4.45"
rand = "=0.8.8"
png = "=0.17.16"
plotters = { version = "=0.3.7", default-features = false, features = ["bitmap_backend", "ab_glyph", "all_series", "all_elements"] }
libc = "=0.2.191"
