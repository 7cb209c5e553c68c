[package]
name = "blackbird"
version = "0.1.0"
edition = "2021"
publish = false

[dependencies]
clap = "3"
imap = "2.4"
lettre = "0.10"
native-tls = "0.2"
tokio = { version = "1", features = ["rt-multi-thread", "time", "process"] }
