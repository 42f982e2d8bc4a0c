[package]
name = "cantus"
version = "0.1.0"
edition = "2021"
publish = false

[dependencies]
base64 = "=0.22.1"
sha2 = "=0.10.9"
form_urlencoded = "=1.2.2"
getrandom = "=0.3.4"
jiff = "=0.2.43"
serde = { version = "=1.0.229", features = ["derive"] }
serde_json = "=1.0.154"
toml = "=0.8.23"
toml_edit = "=0.22.27"
ureq = "=3.5.1"
arrayvec = { version = "=0.7.8", features = ["serde"] }
image = { version = "0.25", default-features = false }
