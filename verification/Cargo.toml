[package]
name = "hc_admin"
version = "0.1.0"
edition = "2021"
publish = false

[dependencies]
ansi_term = "=0.12.1"
anyhow = "=1.0.104"
holochain_serialized_bytes = "=0.0.57"
holochain_websocket = "=0.7.1"
holochain_zome_types = "=0.7.1"
tokio = { version = "=1.54.1", features = ["rt", "process", "macros", "time"] }
