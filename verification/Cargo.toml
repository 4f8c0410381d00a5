[package]
name = "sprofiler"
version = "0.1.0"
edition = "2021"
publish = false

[dependencies]
anyhow = "1"
async-std = "1"
object = "0.28"
oci-spec = "0.5"
regex = "1"
serde = { version = "1", features = ["derive"] }
serde_json = "1"
tempdir = "0.3"
tracing = "0.1"
