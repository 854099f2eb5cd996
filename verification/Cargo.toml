[package]
name = "vio_backend"
version = "0.1.0"
edition = "2021"
publish = false

[dependencies]
apex-solver = { version = "=1.2.1", default-features = false }
nalgebra = "0.33"
log = "0.4"

[dev-dependencies]
rand = "0.8"
approx = "0.5"
