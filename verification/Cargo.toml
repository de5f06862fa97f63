[package]
name = "pomoxide"
version = "0.1.0"
edition = "2021"
publish = false

[dependencies]
dirs = "=7.0.0"
notify-rust = "=4.18.2"
rodio = "=0.22.2"
serde = "=1.0.229"
serde_derive = "=1.0.229"
termion = "=1.5.6"
toml = "=1.1.7"
tui = { version = "=0.19.0", default-features = false, features = ["termion"] }
