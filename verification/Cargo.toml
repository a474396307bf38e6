[package]
name = "neutron_star"
version = "0.1.0"
edition = "2021"
publish = false

[dependencies]
csv = "=1.4.0"
ndarray = "=0.17.2"
plotly = "=0.14.1"

[dev-dependencies]
nalgebra = "=0.35.0"
