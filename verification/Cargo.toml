[package]
name = "home_orbit"
version = "0.1.0"
edition = "2021"
publish = false

[dependencies]
mlua = { version = "0.10", features = ["lua54", "vendored"] }
axum = "0.6"
tokio = { version = "1", features = ["macros", "rt-multi-thread"] }
