[package]
name = "pop_launcher"
version = "0.1.0"
edition = "2021"
publish = false

[dependencies]
regex = "1"
slab = "0.4"
freedesktop-desktop-entry = "0.7"
shell-words = "1"
shellexpand = "3"
urlencoding = "2"
textdistance = "1"
human-sort = "0.2"
btreemultimap = "0.1"
strsim = "0.11"
serde = { version = "1", features = ["derive"] }
serde_json = "1"
ron = "0.8"
new_mime_guess = "4"
url = "2"
dirs = "5"
human_format = "1"
tokio = { version = "1", features = ["rt", "macros", "process", "io-util", "io-std", "time"] }
futures = "0.3"
flume = "0.11"
