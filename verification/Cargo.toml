[package]
name = "aerostream"
version = "0.1.0"
edition = "2021"
publish = false

[dependencies]
anyhow = "=1.0.104"
chrono = { version = "=0.4.45", features = ["serde"] }
crossterm = "=0.29.0"
indexmap = { version = "=2.14.2", features = ["serde"] }
libipld = { version = "=0.12.0", default-features = false, features = ["dag-cbor", "dag-json"] }
log = "=0.4.34"
ratatui = "=0.30.2"
serde = { version = "=1.0.229", features = ["derive"] }
serde_json = "=1.0.154"
serde_yaml = "=0.9.34"
textwrap = "=0.16.4"
tiny_http = "=0.12.0"
tungstenite = { version = "=0.21.0", features = ["rustls-tls-webpki-roots"] }
ureq = { version = "=2.12.1", features = ["json"] }
url = "=2.5.8"
webbrowser = "=1.2.5"

[dev-dependencies]
leb128 = "=0.2.7"
regex = "=1.13.1"
urlencoding = "=2.1.3"
