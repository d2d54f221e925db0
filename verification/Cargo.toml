[package]
name = "dirlist"
version = "0.1.0"
edition = "2021"
publish = false

[dependencies]
chrono = "0.4"
clap = { version = "4", features = ["derive"] }
colored = "*"
tabular = { version = "0.2", features = ["ansi-cell"] }
terminal_size = "*"
uutils_term_grid = "*"
uzers = "*"
xattr = "*"
