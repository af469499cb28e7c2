[package]
name = "gette"
version = "0.1.0"
edition = "2021"
publish = false

[dependencies]
async-trait = "=0.1.92"
aws-config = "=0.101.0"
aws-sdk-s3 = "=0.38.0"
futures = "=0.3.34"
path-clean = "=1.0.1"
thiserror = "=1.0.69"
url = "=2.5.8"

[dev-dependencies]
regex = "=1.13.1"
