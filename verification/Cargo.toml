[package]
name = "devserve"
version = "0.1.0"
edition = "2021"
publish = false

[dependencies]
actix-web = "*"
actix-files = "*"
chrono = "*"
ctrlc = "*"
notify = "4"
ws = "*"
