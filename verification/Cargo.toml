[package]
name = "crane_socket"
version = "0.1.0"
edition = "2021"
publish = false

[dependencies]
snow = "=0.10.0"
base64 = "=0.22.1"
rand = "=0.9.5"
tokio = { version = "=1.54.1", features = ["full"] }
tokio-tungstenite = "=0.26.2"
futures = "=0.3.34"
futures-util = "=0.3.34"
serde = { version = "=1.0.229", features = ["derive"] }
serde_json = "=1.0.154"
postcard = { version = "=1.1.3", features = ["alloc"] }
log = "=0.4.35"
env_logger = "=0.11.11"
dotenv = "=0.15.0"
async-trait = "=0.1.92"
thiserror = "=2.0.21"
stunclient = "=0.4.2"
