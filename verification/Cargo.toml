[package]
name = "pfft-miner"
version = "0.2.0"
edition = "2021"
publish = false

[dependencies]
alloy = { version = "0.8", default-features = false, features = ["std", "contract", "provider-http", "reqwest", "signer-local"] }
dotenvy = "0.15"
num_cpus = "1"
rand = "0.8"
rpassword = "7"
tokio = { version = "1", features = ["macros", "rt-multi-thread", "signal", "time"] }
