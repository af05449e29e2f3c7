[package]
name = "turnbase"
version = "0.1.0"
edition = "2021"
publish = false

[dependencies]
serde = { version = "=1.0.229", features = ["derive"] }
serde_json = "=1.0.154"
clap = { version = "=4.6.7", features = ["derive"] }
log = "=0.4.35"
retroglyph-core = "*"
retroglyph-crossterm = "*"
retroglyph-widgets = "*"
