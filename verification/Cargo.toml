[package]
name = "blog"
version = "0.1.0"
edition = "2021"
publish = false

[dependencies]
validator = "=0.16.1"
argon2 = "=0.5.3"
rand_core = { version = "=0.6.4", features = ["getrandom"] }
chrono = "=0.4.45"
femark = "=0.1.6"
gray_matter = "=0.3.2"
http = "=0.2.12"
indexmap = { version = "=2.14.2", features = ["serde"] }
serde = { version = "=1.0.229", features = ["derive"] }
serde_json = "=1.0.154"
serde_qs = "=1.1.3"
thiserror = "=1.0.69"
cfg-if = "=1.0.5"
log = "=0.4.35"
anyhow = "=1.0.104"
leptos = { version = "=0.3.1", default-features = false, features = ["ssr", "stable", "serde"] }
leptos_axum = "=0.3.1"
leptos_meta = { version = "=0.3.1", features = ["ssr", "stable"] }
leptos_router = { version = "=0.3.1", features = ["ssr", "stable"] }
axum = "0.6"
sqlx = { version = "0.6", features = ["runtime-tokio-rustls", "sqlite"] }
tokio = { version = "1", features = ["full"] }
tower = "0.4"
tower-http = { version = "0.4", features = ["fs"] }
simple_logger = "4"
wasm-bindgen = "0.2"
