[package]
name = "poly"
version = "0.1.0"
edition = "2021"
publish = false

[dependencies]
base64 = "0.13"
clap = { version = "3", features = ["derive"] }
data-encoding = "2"
fs_extra = "1"
gitignored = "*"
http = "0.2"
httparse = "1"
mime_guess = "2"
notify = "5"
sha2 = "0.10"
tempfile = "3"
ureq = "2"
walkdir = "2"
zip-extract = "0.1"
