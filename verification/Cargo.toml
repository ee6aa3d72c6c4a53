[package]
name = "vauth"
version = "0.1.0"
edition = "2021"
publish = false

[dependencies]
anyhow = "1"
base64 = "0.22"
caps = "0.5"
chrono = "0.4"
ciborium = "0.2"
clap = { version = "4", features = ["derive"] }
dlib-face-recognition = "*"
gdk4 = "*"
glib = "*"
gtk4 = "*"
image = { version = "*", default-features = false }
libc = "0.2"
nokhwa = { version = "*", features = ["input-native"] }
p256 = { version = "0.13", features = ["ecdsa", "pkcs8", "pem"] }
pam-client2 = "*"
rcgen = "*"
serde = { version = "1", features = ["derive"] }
serde_json = "1"
tokio = { version = "1", features = ["full"] }
tracing = "0.1"
