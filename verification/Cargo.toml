[package]
name = "blossom"
version = "0.1.0"
edition = "2021"
publish = false

[dependencies]
aes-gcm = "0.10"
scrypt = "0.11"
base64 = "0.22"
rand = "0.8"
hex = "0.4"
chrono = "0.4"
uuid = { version = "1", features = ["v4"] }
anyhow = "1"
serde = { version = "1", features = ["derive"] }
serde_json = "1"
dirs = "5"
zbus = "4"
async-io = "2"
cpal = "0.15"
gtk4 = { version = "0.9", features = ["v4_12"] }
gdk4 = "0.9"
gio = "0.20"
glib = "0.20"
libadwaita = { version = "0.7", features = ["v1_4"] }
