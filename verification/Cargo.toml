[package]
name = "epsilon"
version = "0.1.0"
edition = "2021"
publish = false

[dependencies]
anyhow = "=1.0.104"
async-minecraft-ping = "=0.8.0"
async-trait = "=0.1.92"
env_logger = { version = "=0.9.3", default-features = false }
futures = { version = "=0.3.34", default-features = false, features = ["std"] }
hyper = { version = "=0.14.32", default-features = false, features = ["client", "http1", "tcp"] }
k8s-openapi = { version = "=0.15.0", default-features = false, features = ["v1_24"] }
kube = { version = "=0.74.0", default-features = false, features = ["client", "runtime", "derive"] }
log = "=0.4.34"
rocket = { version = "=0.5.2", default-features = false, features = ["json"] }
schemars = { version = "=0.8.22", default-features = false, features = ["derive"] }
serde = { version = "=1.0.229", features = ["derive"] }
serde_json = "=1.0.154"
serde_yaml = "=0.8.26"
thiserror = "=1.0.69"
tokio = { version = "=1.54.1", default-features = false, features = ["rt-multi-thread", "macros", "time", "sync"] }
