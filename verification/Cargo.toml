[package]
name = "container_init"
version = "0.1.0"
edition = "2021"
publish = false

[dependencies]
nc = "0.9.5"
nix = { version = "0.28.0", features = ["fs", "mount", "process", "sched", "user"] }
oci-spec = { version = "0.7.1", default-features = false, features = ["runtime"] }
prctl = "1.0.0"
serde_json = "1.0"
tracing = "0.1"
