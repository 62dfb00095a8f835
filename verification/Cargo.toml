[package]
name = "midi_playback"
version = "0.1.0"
edition = "2021"
publish = false

[dependencies]
midly = "0.5"
rustysynth = "*"
cpal = "*"
clap = { version = "4", features = ["derive"] }
