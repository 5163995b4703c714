[package]
name = "bevy_mod_bcc"
version = "0.1.0"
edition = "2021"
publish = false

[dependencies]
bevy_app = "0.16"
bevy_asset = "0.16"
bevy_mesh = "0.16"
bevy_reflect = "0.16"
futures-io = "0.3"
log = "0.4"
