[package]
name = "diamond_dagger"
version = "0.1.0"
edition = "2021"
publish = false

[dependencies]
serde = { version = "=1.0.229", features = ["derive"] }
serde_json = "=1.0.154"
image = { version = "=0.25.10", default-features = false, features = ["bmp", "dds", "exr", "ff", "gif", "hdr", "ico", "jpeg", "png", "pnm", "qoi", "tga", "tiff", "webp"] }
reqwest = { version = "=0.12.28", default-features = false, features = ["rustls-tls"] }
rocket = { version = "=0.5.2", features = ["json"] }
rocket_cors = "=0.6.0"
rocket-download-response = "=0.7.0"
tokio = { version = "=1.54.1", features = ["macros", "rt-multi-thread"] }
warp = "=0.3.7"
