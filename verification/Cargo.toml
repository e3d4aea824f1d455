[package]
name = "shitty"
version = "0.1.0"
edition = "2021"
publish = false

[dependencies]
unicode-width = "=0.2.3"
aligned-vec = "=0.6.4"
bitvec = "=1.1.1"
base64ct = { version = "=1.8.3", features = ["alloc"] }
spin = "=0.9.9"
noto-sans-mono-bitmap = { version = "=0.4.0", features = ["size_20", "bold"] }
ansi-parser = "=0.9.1"
vte = { version = "=0.15.0", features = ["ansi"] }
