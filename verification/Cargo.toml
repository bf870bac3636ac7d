[package]
name = "deckhand"
version = "0.1.0"
edition = "2021"
publish = false

[dependencies]
crossbeam-channel = "0.5"
log = "0.4"
postcard = { version = "1", features = ["use-std"] }
serde = { version = "1", features = ["derive"] }
ron = "0.8"
thiserror = "2"
iced = { version = "*", default-features = false }
