[package]
name = "move_fuzzer"
version = "0.1.0"
edition = "2021"
publish = false

[dependencies]
bcs = "0.1.6"
bichannel = "0.0.4"
libsecp256k1 = "0.7.2"
move-core-types = "0.0.3"
rand = "0.8"
tiny-keccak = { version = "2.0.2", features = ["keccak"] }
