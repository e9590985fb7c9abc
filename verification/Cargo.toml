[package]
name = "tessera"
version = "0.1.0"
edition = "2021"
publish = false

[dependencies]
ash = { version = "=0.38.0", default-features = false, features = ["loaded"] }
drm = "=0.15.0"
input = { version = "=0.10.0", default-features = false, features = ["libinput_1_21"] }
libc = "=0.2.191"
libseat = { version = "=0.2.4", default-features = false }
log = "=0.4.35"
serde = { version = "=1.0.229", features = ["derive"] }
serde_json = "=1.0.154"
thiserror = "=2.0.21"
udev = "=0.9.3"

[dev-dependencies]
tempfile = "=3.27.0"
