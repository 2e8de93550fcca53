[package]
name = "superr"
version = "0.1.0"
edition = "2021"
publish = false

[dependencies]
fastrand = "2"
rand = "0.8"
clap = "4"
clap-stdin = "*"
ctrlc = "3"
rayon = "1"
indicatif = "0.17"
num-format = "0.4"
humantime = "2"
anyhow = "1"
