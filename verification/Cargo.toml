[package]
name = "frame_dedup"
version = "0.1.0"
edition = "2021"
publish = false

[dependencies]
image = { version = "*", default-features = false, features = ["png"] }
zstd = "*"
rayon = "*"
tempfile = "*"
once_cell = "*"
tokio = { version = "*", default-features = false, features = ["macros", "rt-multi-thread"] }
