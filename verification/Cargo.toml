[package]
name = "siphon-sigtran"
version = "1.0.0"
edition = "2021"
publish = false

[dependencies]
mtp3 = "=1.2.0"
m3ua = "=1.1.0"
m2pa = "=1.1.0"
sccp = "=1.1.1"
sua = "=1.0.0"
tcap = "=1.0.0"
gsm_map = "=1.1.0"
gsm_cap = "=1.2.0"
inap = "=1.1.0"
itu-isup = "=1.0.0"
rasn = "=0.28.15"
async-sctp = "=1.1.0"
tokio = { version = "1", features = ["rt", "rt-multi-thread", "sync", "time", "macros"] }
serde = { version = "1", features = ["derive"] }
serde_yaml = "0.9"
thiserror = "2"
pyo3 = { version = "=0.30.1", features = ["abi3"] }
pyo3-async-runtimes = { version = "=0.30.0", features = ["tokio-runtime"] }
