[package]
name = "mdblog"
version = "0.1.0"
edition = "2021"
publish = false

[dependencies]
comrak = { version = "=0.57.0", default-features = false }
rocket = "=0.5.2"
rocket_dyn_templates = { version = "=0.2.0", features = ["handlebars"] }
serde = { version = "=1.0.229", features = ["derive"] }
