[package]
name = "descriptors"
version = "0.1.0"
edition = "2021"
publish = false

[dependencies]
hdk = "=0.3.6"
hdi = "=0.4.6"
serde = "1"
thiserror = "1"
derive-new = "0.5"
