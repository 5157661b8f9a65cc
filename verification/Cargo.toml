[package]
name = "hash"
version = "1.0.0"
edition = "2021"
publish = false

[dependencies]
blake3 = "1"
clap = "3"
exitcode = "1"
md5 = "0.7"
sha2 = "0.10"
