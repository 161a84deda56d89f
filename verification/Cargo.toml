[package]
name = "the_game_of_gradients"
version = "0.1.0"
edition = "2021"
publish = false

[dependencies]
bevy = { version = "=0.9.1", default-features = false, features = ["bevy_asset", "bevy_core_pipeline", "bevy_render", "bevy_sprite", "bevy_text", "bevy_ui", "png"] }
bevy_asset_loader = { version = "=0.14.1", default-features = false, features = ["2d"] }
leptos = { version = "=0.5.7", default-features = false, features = ["csr"] }
web-sys = { version = "0.3", features = ["console"] }
