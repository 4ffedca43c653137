[package]
name = "tile_rpg"
version = "0.1.0"
edition = "2021"
publish = false

[dependencies]
itertools = "*"
specs = "*"
specs-derive = "*"
bracket-lib = "0.8"
bracket-terminal = "0.8"
serde = { version = "1", features = ["derive"] }
serde_json = "1"
