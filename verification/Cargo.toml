[package]
name = "flick"
version = "0.1.0"
edition = "2021"
publish = false

[dependencies]
dirs = "=7.0.0"
glow = "=0.18.0"
i-slint-core = { version = "=1.18.1", default-features = false, features = ["image-decoders", "svg"] }
image = { version = "=0.25.10", default-features = false, features = ["jpeg", "png", "gif", "webp", "bmp", "tiff"] }
jwalk = "=0.9.0"
libmpv2 = "=7.0.0"
rand = "=0.10.3"
rfd = { version = "=0.17.2", default-features = false, features = ["xdg-portal"] }
serde = { version = "=1.0.229", features = ["derive"] }
serde_json = "=1.0.154"
sha1 = "=0.10.7"
slint = { version = "=1.18.1", default-features = false, features = ["compat-1-2", "std"] }
