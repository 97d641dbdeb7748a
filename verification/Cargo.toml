[package]
name = "grit_resolved"
version = "0.1.0"
edition = "2021"
publish = false

[dependencies]
im = "*"
grit-pattern-matcher = "*"
