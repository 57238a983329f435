[package]
name = "streamline"
version = "0.1.0"
edition = "2021"
publish = false

[dependencies]
anyhow = "*"
convert_case = "*"
ethabi = "*"
prost = "*"
prost-wkt-types = "*"
rhai = { version = "*", features = ["serde"] }
serde = { version = "*", features = ["derive"] }
serde_json = "*"
substreams = "*"
substreams-database-change = "*"
substreams-entity-change = "*"
substreams-ethereum = "*"
