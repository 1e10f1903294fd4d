[package]
name = "xmr_db"
version = "0.1.0"
edition = "2021"
publish = false

[dependencies]
sanakirja = "=1.2.16"
sanakirja-core = "=1.2.16"
tiny-keccak = { version = "=2.0.2", features = ["keccak"] }
scrypt = { version = "=0.12.0", default-features = false }

[dev-dependencies]
tempdir = "=0.3.7"
