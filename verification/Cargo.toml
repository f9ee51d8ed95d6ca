[package]
name = "table_digest"
version = "0.1.0"
edition = "2021"
publish = false

[dependencies]
blake3 = "=1.8.7"
postgres = "=0.19.14"
pgrx = { version = "=0.12.9", features = ["pg16"] }
