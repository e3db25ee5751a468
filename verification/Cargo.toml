[package]
name = "zngur"
version = "0.1.0"
edition = "2021"
publish = false

[dependencies]
ariadne = "=0.5.0"
askama = "=0.16.1"
chumsky = "=0.13.0"
clap = { version = "=4.6.7", features = ["derive"] }
hex = "=0.4.3"
indexmap = "=2.14.2"
sha2 = "=0.10.9"
strip-ansi-escapes = "=0.2.1"
