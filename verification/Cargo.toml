[package]
name = "midikeys"
version = "0.1.0"
edition = "2021"
publish = false

[dependencies]
evdev = "0.13"
midir = "0.10"
ctrlc = "3"
