[package]
name = "greentic_gui"
version = "0.1.0"
edition = "2021"
publish = false

[dependencies]
kuchiki = "*"
uuid = { version = "*", features = ["v4"] }
serde = { version = "*", features = ["derive"] }
serde_json = "*"
