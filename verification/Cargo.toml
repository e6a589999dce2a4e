[package]
name = "prost_serde_derive"
version = "0.1.0"
edition = "2021"
publish = false

[dependencies]
base64 = "=0.13.1"
convert_case = "=0.6.0"
proc-macro2 = { version = "=1.0.107", features = ["span-locations"] }
quote = "=1.0.47"
serde = "=1.0.229"
serde_json = "=1.0.154"
syn = { version = "=2.0.119", features = ["full"] }
