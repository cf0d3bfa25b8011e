[package]
name = "coverart"
version = "0.1.0"
edition = "2021"
publish = false

[dependencies]
deunicode = "1"
log = "0.4"
moka = { version = "0.12", features = ["sync"] }
once_cell = "1"
parking_lot = "0.12"
serde = { version = "1", features = ["derive"] }
serde_json = "1"
strsim = "0.11"
ureq = "2"
urlencoding = "2"
