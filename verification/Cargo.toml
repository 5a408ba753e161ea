[package]
name = "rusty_book_pirate"
version = "0.1.0"
edition = "2021"
publish = false

[dependencies]
regex = "1"
zip = { version = "0.6", default-features = false, features = ["deflate"] }
irc = { version = "0.15", default-features = false, features = ["ctcp"] }
tokio = { version = "1", features = ["full"] }
futures = "0.3"
tui = { version = "0.16", default-features = false, features = ["crossterm"] }
crossterm = "0.20"
uuid = { version = "0.8", features = ["v4"] }
