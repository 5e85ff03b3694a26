[package]
name = "post_pipeline"
version = "0.1.0"
edition = "2021"
publish = false

[dependencies]
storage-proofs-core = { version = "*", default-features = false }
storage-proofs-post = { version = "*", default-features = false }
storage-proofs-porep = { version = "*", default-features = false }
filecoin-hashers = { version = "*", default-features = false, features = ["poseidon", "sha256"] }
fr32 = "*"
blstrs = "*"
bellperson = "*"
merkletree = "*"
typenum = "*"
