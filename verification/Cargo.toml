[package]
name = "little_oil"
version = "0.1.0"
edition = "2021"
publish = false

[dependencies]
anyhow = "1"
clap = { version = "4", features = ["derive"] }
clipboard = "0.5"
dirs = "*"
image = { version = "0.24", default-features = false, features = ["pnm"] }
inputbot = "*"
mouse-keyboard-input = "*"
mouse-rs = "*"
once_cell = "1"
rand = "0.8"
rust_decimal = "1"
scrap = "0.5"
serde = { version = "1", features = ["derive"] }
serde_json = "1"
tracing = "0.1"
tracing-subscriber = "0.3"
ureq = { version = "2", features = ["json"] }

[dev-dependencies]
regex = "1"
