[package]
name = "slide-builder"
version = "0.1.0"
edition = "2021"
publish = false

[dependencies]
sha2 = "=0.10.9"
serde = { version = "=1.0.229", features = ["derive"] }
serde_json = "=1.0.154"
anyhow = "=1.0.104"
directories = "=6.0.0"
uuid = { version = "=1.29.0", features = ["v4"] }
toml = "=0.8.23"
zip = { version = "=2.6.1", default-features = false, features = ["deflate", "deflate64"] }
quick-xml = "=0.37.5"
svgtypes = "=0.16.1"
usvg = { version = "=0.47.0", default-features = false }
resvg = { version = "=0.47.0", default-features = false }
image = { version = "=0.25.10", default-features = false, features = ["png"] }
