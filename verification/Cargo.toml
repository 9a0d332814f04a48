[package]
name = "reco_core"
version = "0.1.0"
edition = "2021"
publish = false

[dependencies]
ab_glyph = "=0.2.32"
bytemuck = { version = "=1.25.2", features = ["derive", "extern_crate_alloc"] }
log = "=0.4.35"
nalgebra = "=0.35.0"
serde = { version = "=1.0.229", features = ["derive"] }
thiserror = "=2.0.21"
wgpu = "=28.0.0"
