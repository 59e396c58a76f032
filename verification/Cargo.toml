[package]
name = "relaxed_ik_core"
version = "0.1.0"
edition = "2021"
publish = false

[dependencies]
nalgebra = "=0.32.6"
parry3d-f64 = "=0.13.8"
optimization_engine = "=0.12.0"
