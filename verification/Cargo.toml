[package]
name = "poker_lobby"
version = "0.1.0"
edition = "2021"
publish = false

[dependencies]
rand = "0.8"
cards = "*"
renet = "*"
renet_netcode = "*"

[dev-dependencies]
bincode = "1.3"
