[package]
name = "tamashii"
version = "0.1.0"
edition = "2021"
publish = false

[dependencies]
sha2 = "=0.10.9"
hex = "=0.4.3"
rand = "=0.9.5"
clap = { version = "=4.6.7", features = ["derive"] }
colored = "=3.1.1"
compio = { version = "=0.19.2", features = ["fs", "io", "macros"] }
chrono = "=0.4.45"
