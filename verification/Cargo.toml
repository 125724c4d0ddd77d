[package]
name = "aster_drm"
version = "0.1.0"
edition = "2021"
publish = false

[dependencies]
hashbrown = "0.15"
spin = "0.9"
log = "0.4"
