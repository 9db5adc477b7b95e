[package]
name = "page_scaffold"
version = "0.1.0"
edition = "2021"
publish = false

[dependencies]
slug = "*"
chrono = "*"
clap = "2"
