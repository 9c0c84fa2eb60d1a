[package]
name = "simulator"
version = "0.1.0"
edition = "2021"
publish = false

[dependencies]
base64 = "=0.23.1"
dirs = "=7.0.0"
hex = "=0.4.3"
libc = "=0.2.190"
object = { version = "=0.40.0", features = ["wasm"] }
serde = { version = "=1.0.229", features = ["derive"] }
serde_json = "=1.0.151"
sha2 = "=0.11.0"
soroban-env-host = "=29.0.0"
wasmparser = "=0.261.0"

[dev-dependencies]
gimli = "=0.34.0"
wat = "=1.261.0"
