[package]
name = "peteksim"
version = "0.1.0"
edition = "2021"
publish = false

[dependencies]
base64 = "=0.22.1"
petekio = "=0.3.15"
petekstatic = "*"
petektools = "*"
rand = "*"
rayon = "*"
serde = { version = "=1.0.229", features = ["derive"] }
serde_json = "=1.0.154"
thiserror = "=2.0.21"
