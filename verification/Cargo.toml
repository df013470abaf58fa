[package]
name = "repo_executor"
version = "0.1.0"
edition = "2021"
publish = false

[dependencies]
chrono = "*"
clap = { version = "*", features = ["derive"] }
crossterm = "*"
ftp = "*"
path-slash = "*"
shellexpand = "*"
ssh2 = "*"
zip = "*"
