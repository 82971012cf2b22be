[package]
name = "bevy_modal_editor"
version = "0.1.0"
edition = "2021"
publish = false

[dependencies]
toml_edit = { version = "=0.22.27", features = ["serde"] }
toml = "=0.8.23"
ron = "=0.10.1"
serde = { version = "1", features = ["derive"] }
