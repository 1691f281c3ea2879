[package]
name = "earshot"
version = "0.1.0"
edition = "2021"
publish = false

[dependencies]
glib = "0.22"
gio = "0.22"
parakeet-rs = "0.4"
