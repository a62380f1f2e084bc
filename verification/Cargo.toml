[package]
name = "merkle-tree-example"
version = "0.1.0"
edition = "2021"
publish = false

[dependencies]
ark-ff = "0.3"
ark-ec = "0.3"
ark-bn254 = "0.3"
ark-ed-on-bn254 = { version = "0.3", features = ["r1cs"] }
ark-ed-on-bls12-381 = { version = "0.3", features = ["r1cs"] }
ark-crypto-primitives = { version = "0.3", features = ["r1cs"] }
ark-r1cs-std = "0.3"
ark-relations = "0.3"
ark-groth16 = { version = "0.3", features = ["r1cs"] }
ark-snark = "0.3"
ark-std = "0.3"
ark-serialize = "0.3"
hex = "0.4"
lazy_static = "1.4"
