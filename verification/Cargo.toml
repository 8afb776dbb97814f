[package]
name = "nocturned"
version = "0.1.0"
edition = "2021"
rust-version = "1.95"
publish = false

[dependencies]
anyhow = "1"
async-trait = "0.1"
axum = "0.7"
base64 = "=0.22.1"
bluer = { version = "=0.17.4", features = ["rfcomm", "bluetoothd"] }
bytes = "=1.12.1"
crc32fast = "=1.5.4"
dbus = { version = "0.9", features = ["vendored"] }
dbus-crossroads = "0.5"
futures = "0.3"
hex = "0.4"
# Nothing here calls kstring: tract-onnx draws it in, and later versions need a newer compiler.
kstring = "=2.0.2"
libc = "0.2"
md5 = "=0.7.0"
opus = "0.3"
rmp-serde = "=1.3.1"
rmpv = "=1.3.1"
serde = { version = "1", features = ["derive"] }
serde_json = "=1.0.154"
tokio = { version = "1", features = ["full"] }
tokio-tungstenite = "0.24"
tower-http = { version = "0.6", features = ["fs"] }
tracing = "0.1"
tracing-subscriber = { version = "0.3", features = ["env-filter"] }
tract-onnx = "0.21"
uuid = { version = "=1.29.0", features = ["v4"] }
