[package]
name = "cairo_vm_hints"
version = "0.1.0"
edition = "2021"
publish = false

[dependencies]
cairo-vm = { version = "=3.2.0", features = ["extensive_hints"] }
hex = "=0.4.3"
num-bigint = { version = "=0.4.8", features = ["rand"] }
rand = "=0.8.8"
starknet-crypto = "=0.7.4"
starknet-types-core = "=0.1.7"
tiny-keccak = { version = "=2.0.2", features = ["keccak"] }

[dev-dependencies]
sha3 = "=0.10.9"
