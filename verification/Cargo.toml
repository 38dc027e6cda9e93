[package]
name = "menma"
version = "0.1.0"
edition = "2021"
publish = false

[dependencies]
anyhow = "=1.0.104"
chrono = "=0.4.45"
crossterm = "=0.25.0"
eframe = "0.14"
encoding_rs = "=0.8.42"
structopt = "=0.3.26"
tui = "=0.19.0"
