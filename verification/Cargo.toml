[package]
name = "nse_labels"
version = "0.1.0"
edition = "2021"
publish = false

[dependencies]
anyhow = "=1.0.104"
filecoin-hashers = { version = "=14.1.0", default-features = false, features = ["poseidon", "sha256"] }
generic-array = "=0.14.9"
merkletree = "=0.23.0"
rayon = "=1.12.0"
sha2raw = "=2.1.1"
storage-proofs-core = { version = "=19.1.0", default-features = false }

[dev-dependencies]
blstrs = "=0.7.1"
rand = "=0.7.3"
rand_xorshift = "=0.2.0"
sha2 = "=0.10.9"
