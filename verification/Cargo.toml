[package]
name = "exoplanet_query"
version = "0.1.0"
edition = "2021"
publish = false

[dependencies]
sqlx = { version = "0.7", default-features = false, features = ["sqlite", "runtime-tokio", "macros"] }
leptos = { version = "0.6", features = ["ssr"] }
leptos_meta = { version = "0.6", features = ["ssr"] }
leptos_router = { version = "0.6", features = ["ssr"] }
serde = { version = "1", features = ["derive"] }
dotenvy = "0.15"

[dev-dependencies]
tokio = { version = "1", features = ["rt"] }
