[package]
name = "snake_game"
version = "0.1.0"
edition = "2021"
publish = false

[dependencies]
rand = "0.7"
termion = "1.5"
tui = { version = "0.14", default-features = false, features = ["termion"] }
