[package]
name = "server"
version = "0.1.0"
edition = "2021"
publish = false

[dependencies]
anyhow = "=1.0.104"
axum = { version = "=0.6.20", features = ["headers"] }
chrono = { version = "=0.4.45", features = ["serde"] }
deadpool-redis = { version = "=0.13.0", default-features = false, features = ["rt_tokio_1"] }
dotenv = "=0.15.0"
ethers-core = "=2.0.14"
futures = "=0.3.34"
image = { version = "=0.24.9", default-features = false, features = ["gif", "jpeg", "ico", "png", "pnm", "tga", "tiff", "webp", "bmp", "hdr", "dxt", "dds", "farbfeld", "qoi"] }
jsonwebtoken = "=8.3.0"
sea-orm = { version = "=0.12.15", default-features = false, features = ["sqlx-postgres", "runtime-tokio-rustls", "macros", "with-chrono", "with-json", "sea-orm-internal"] }
serde = { version = "=1.0.229", features = ["derive"] }
serde_json = "=1.0.154"
siwe = "=0.6.1"
sqlx = { version = "=0.7.4", default-features = false, features = ["postgres", "runtime-tokio-rustls"] }
thiserror = "=1.0.69"
tokio = { version = "=1.54.1", features = ["full"] }
