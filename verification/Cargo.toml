[package]
name = "scalable_reports"
version = "0.1.0"
edition = "2021"
publish = false

[dependencies]
candid = "=0.8.4"
ic-cdk = "=0.6.10"
ic_scalable_canister = "=0.2.731"
ic_scalable_misc = "=0.2.52"
serde = { version = "=1.0.229", features = ["derive"] }
