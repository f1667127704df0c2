[package]
name = "joshuto"
version = "0.1.0"
edition = "2021"
publish = false

[dependencies]
ncurses = "5"
serde = { version = "1", features = ["derive"] }
termion = "1.5"
toml = "0.5"
tui = { version = "0.19", default-features = false, features = ["termion"] }
xdg = "2"
