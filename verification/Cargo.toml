[package]
name = "littlemanplus"
version = "0.1.0"
edition = "2021"
publish = false

[dependencies]
derive_setters = "*"
ratatui = "0.29"
thiserror = "*"
tui-textarea = "0.7"

[dev-dependencies]
chumsky = { version = "*", default-features = false, features = ["std", "regex"] }
