[package]
name = "fdapquery"
version = "0.1.0"
edition = "2021"
publish = false

[dependencies]
arrow = { version = "*", default-features = false }
arrow-array = { version = "*", default-features = false }
arrow-schema = { version = "*", default-features = false }
arrow-select = { version = "*", default-features = false }
arrow-ord = { version = "*", default-features = false }
async-stream = "*"
async-trait = "*"
chrono = { version = "*", default-features = false, features = ["clock", "std"] }
futures = "*"
pin-project-lite = "*"
