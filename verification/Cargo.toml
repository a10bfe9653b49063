[package]
name = "parapet"
version = "0.1.0"
edition = "2021"
publish = false

[dependencies]
anyhow = "1"
chrono = "0.4"
ctrlc = "3"
fuzzy-matcher = "0.3"
gdk = "0.18"
gio = "0.18"
glib = "0.18"
gtk = "0.18"
libc = "0.2"
notify = "6"
schemars = "0.8"
serde = { version = "1", features = ["derive"] }
serde_json = "1"
sysinfo = "0.30"
toml = "0.8"
tracing = "0.1"
tracing-subscriber = "0.3"
ureq = "3"
zbus = "4"
