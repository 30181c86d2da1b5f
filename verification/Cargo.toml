[package]
name = "van"
version = "0.2.3"
edition = "2021"

[dependencies]
crossterm = "0.28"
