[package]
name = "stem_align"
version = "0.1.0"
edition = "2021"
publish = false

[dependencies]
chrono = "0.4"
hound = "3"
symphonia = { version = "0.5", features = ["mp3"] }
