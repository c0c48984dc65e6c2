[package]
name = "datastore_driver"
version = "0.1.0"
edition = "2021"
publish = false

[dependencies]
clvmr = "=0.21.0"
chia-protocol = "=0.50.0"
chia-puzzles = "=0.20.3"
chia-sha2 = "=0.50.0"
clvm-traits = "=0.50.0"
clvm-utils = "=0.50.0"

[dev-dependencies]
num-bigint = "=0.4.8"
