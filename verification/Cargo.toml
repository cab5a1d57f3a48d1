[package]
name = "irc_bot"
version = "0.1.0"
edition = "2021"
publish = false

[dependencies]
pircolate = "0.2.1"
itertools = "0.6.5"
clap = "2.34.0"
log = "0.3.9"
