[package]
name = "asset_preload"
version = "0.1.0"
edition = "2021"
publish = false

[dependencies]
bevy_app = "0.13"
bevy_asset = "0.13"
bevy_ecs = "0.13"

[dev-dependencies]
bevy_tasks = "0.13"
