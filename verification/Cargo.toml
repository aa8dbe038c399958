[package]
name = "lines_are_rusty"
version = "0.1.0"
edition = "2021"
publish = false

[dependencies]
anyhow = "=1.0.104"
byteorder = "=1.5.0"
clap = "=2.34.0"
pdf-canvas = "=0.7.0"
phf = { version = "=0.14.0", features = ["macros"] }
svg = "=0.18.0"
thiserror = "=1.0.69"

[dev-dependencies]
phf_generator = "=0.14.0"
