[package]
name = "lintspec"
version = "0.1.0"
edition = "2021"
publish = false

[dependencies]
slang_solidity = "=0.18.3"
metaslang_cst = "=0.18.3"
semver = "=1.0.28"
anyhow = "=1.0.104"
