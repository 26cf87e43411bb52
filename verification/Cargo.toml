[package]
name = "nod_krai_gi"
version = "0.1.0"
edition = "2021"
publish = false

[dependencies]
rand = { version = "=0.8.8", features = ["small_rng"] }
serde = { version = "=1.0.229", features = ["derive"] }
serde_json = "=1.0.154"
bevy_ecs = "=0.17.3"
crossbeam-queue = "=0.3.14"
mlua = { version = "=0.10.5", features = ["lua54", "vendored", "send"] }
