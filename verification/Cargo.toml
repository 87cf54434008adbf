[package]
name = "radix_runtime_fuzzer"
version = "0.1.0"
edition = "2021"
publish = false

[dependencies]
hex = "=0.4.3"
once_cell = "=1.21.4"
lazy_static = "=1.5.1"
serde_json = "=1.0.154"
cargo_toml = "=0.15.3"
colored = "=2.2.0"
clap = { version = "=4.6.7", features = ["derive"] }
itertools = "=0.10.5"
blake2 = "=0.10.6"
nix = { version = "0.27", features = ["process", "signal"] }
libc = "0.2"
