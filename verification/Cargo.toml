[package]
name = "whispering"
version = "0.1.0"
edition = "2021"
publish = false

[dependencies]
cpal = "=0.18.2"
flate2 = "=1.1.10"
nix = { version = "=0.31.3", features = ["signal"] }
rubato = "=0.16.2"
tar = "=0.4.46"
tempfile = "=3.27.0"

[dev-dependencies]
hound = "=3.5.1"
