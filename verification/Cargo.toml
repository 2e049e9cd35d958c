[package]
name = "adfs_rs"
version = "0.1.0"
edition = "2021"
publish = false

[dependencies]
base64 = "=0.23.1"
reqwest = { version = "*", default-features = false, features = ["cookies", "form"] }
tokio = { version = "*", features = ["macros", "rt-multi-thread"] }
clap = { version = "*", features = ["derive"] }
aws-config = "*"
aws-sdk-sts = "*"
