[package]
name = "datelike"
version = "0.1.0"
edition = "2021"
publish = false

[dependencies]
chrono = { version = "0.4", features = ["serde"] }
clap = { version = "4", features = ["derive"] }
crockford = "*"
epochs = "*"
itertools = "*"
maplit = "1"
regex = "1"
serde = { version = "1", features = ["derive"] }
serde_json = "1"
