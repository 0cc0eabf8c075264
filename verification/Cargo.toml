[package]
name = "dash_mpd"
version = "0.1.0"
edition = "2021"
publish = false

[dependencies]
url = "=2.5.8"
data-url = "=0.3.2"
sanitise-file-name = "=1.0.0"
reqwest = { version = "=0.11.27", default-features = false, features = ["blocking", "gzip"] }
hyper = "=0.14.32"
backoff = "=0.4.0"
log = "=0.4.34"
quick-xml = { version = "=0.27.1", features = ["serialize"] }
serde = { version = "=1.0.229", features = ["derive"] }
tempfile = "=3.27.0"
xattr = "=1.6.1"

[dev-dependencies]
regex = "1"
