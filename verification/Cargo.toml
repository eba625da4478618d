[package]
name = "nats_stream_dump"
version = "0.1.0"
edition = "2021"
publish = false

[dependencies]
async-nats = "=0.51.0"
base64 = "=0.23.1"
futures = "=0.3.34"
indicatif = "=0.18.6"
nuid = "=0.6.0"
serde = "=1.0.229"
serde_json = { version = "=1.0.154", features = ["unbounded_depth"] }
serde_json_path = "=0.7.2"
serde_json_path_macros = "=0.1.6"
time = { version = "=0.3.55", features = ["formatting", "parsing"] }
tokio = { version = "=1.54.1", features = ["full"] }
tokio-stream = "=0.1.19"
tracing = "=0.1.44"
tracing-subscriber = { version = "=0.3.23", features = ["env-filter"] }
