[package]
name = "blake3_fold"
version = "0.1.0"
edition = "2021"
publish = false

[dependencies]
bao = "=0.13.1"
blake3 = "=1.8.7"
arecibo = "=0.1.1"
bellpepper-core = "=0.4.0"
circom-scotia = "=0.2.0"
ff = "=0.13.1"
halo2curves = "=0.4.0"
serde_json = "=1.0.151"
