[package]
name = "billow"
version = "0.1.0"
edition = "2021"
publish = false

[dependencies]
containerd-client = "*"
libc = "*"
oci-spec = "*"
prost = "*"
prost-types = "*"
rusqlite = { version = "*", features = ["bundled"] }
serde_json = "*"
sha2 = "*"
tokio = { version = "*", features = ["full"] }
tonic = "*"
uuid = { version = "*", features = ["v4"] }
