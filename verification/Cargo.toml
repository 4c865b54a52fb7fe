[package]
name = "midenc"
version = "0.1.0"
edition = "2021"
publish = false

[dependencies]
addr2line = "=0.24.2"
anyhow = "=1.0.104"
clap = { version = "=4.6.7", features = ["derive", "env"] }
compact_str = "=0.9.1"
gimli = "=0.31.1"
miden-assembly = "=0.20.6"
miden-assembly-syntax = "=0.20.6"
miden-core = "=0.20.6"
miden-core-lib = "=0.20.6"
miden-debug-types = "=0.20.6"
miden-mast-package = "=0.20.6"
miden-protocol = "=0.13.3"
miden-standards = "=0.13.3"
smallvec = "=1.16.4"
thiserror = "=2.0.21"
wasmparser = "=0.227.1"
wat = "=1.263.0"
