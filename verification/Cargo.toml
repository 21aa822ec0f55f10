[package]
name = "cosnark_core"
version = "0.1.0"
edition = "2021"
publish = false

[dependencies]
ark-bn254 = "=0.5.0"
ark-ff = "=0.5.0"
ark-serialize = "=0.5.0"
eyre = "=0.6.14"
rand = "=0.8.8"
rand_chacha = "=0.3.1"
serde = { version = "=1.0.229", features = ["derive"] }
sha3 = "=0.10.9"
