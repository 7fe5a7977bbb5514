[package]
name = "actor_bundler"
version = "0.1.0"
edition = "2021"
publish = false

[dependencies]
toml = "*"
convert_case = "0.6"
blake2b_simd = "1"

[dev-dependencies]
frc42_dispatch = "*"
ciborium = "*"
