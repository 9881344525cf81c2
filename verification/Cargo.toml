[package]
name = "dtmf"
version = "0.1.0"
edition = "2021"
publish = false

[dependencies]
clap = "2"
hound = "3"
sample = "0.6"
