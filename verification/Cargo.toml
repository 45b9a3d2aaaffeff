[package]
name = "gtfs_sim"
version = "0.1.0"
edition = "2021"
publish = false

[dependencies]
chrono = "0.4"
serde = "1"
serde_derive = "1"
clap = "4"
