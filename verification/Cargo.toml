[package]
name = "rusty_roguelike"
version = "0.1.0"
edition = "2021"
publish = false

[dependencies]
rltk = { version = "*", features = ["serde"] }
specs = { version = "*", features = ["serde"] }
specs-derive = "*"
serde = { version = "1", features = ["derive"] }
lazy_static = "*"
