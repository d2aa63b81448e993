[package]
name = "telemetry_node"
version = "0.1.0"
edition = "2021"
publish = false

[dependencies]
anyhow = "=1.0.104"
dotenv_codegen = "=0.15.0"
embedded-svc = "=0.19.1"
esp-idf-svc = "=0.39.2"
esp-idf-sys = { version = "=0.31.12", features = ["binstart"] }
log = "=0.4.34"
mutex-trait = "=0.2.0"
