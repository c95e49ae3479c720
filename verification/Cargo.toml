[package]
name = "macrotest"
version = "1.0.13"
edition = "2021"
publish = false

[dependencies]
basic-toml = "0.1"
diff = "0.1"
glob = "0.3"
prettyplease = "0.2"
serde = { version = "1", features = ["derive"] }
serde_derive = "1"
serde_json = "1"
syn = { version = "2", features = ["full"] }
toml = "0.8"
toml_edit = { version = "0.22", features = ["serde"] }
