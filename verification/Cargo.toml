[package]
name = "k8s_pod_monitor"
version = "0.1.0"
edition = "2021"
publish = false

[dependencies]
anyhow = "=1.0.104"
k8s-openapi = { version = "=0.27.1", features = ["latest"] }
kube = "=3.1.0"
pyo3 = "=0.20.3"
serde = { version = "=1.0.229", features = ["derive"] }
serde_json = "=1.0.154"
tokio = { version = "=1.54.1", features = ["macros", "rt-multi-thread"] }
