[package]
name = "bmm_lib"
version = "0.1.0"
edition = "2021"
publish = false

[dependencies]
anyhow = "1"
bincode = { version = "2", features = ["serde"] }
dirs = "*"
flate2 = "1"
home = "*"
libc = "0.2"
libproc = "*"
log = "0.4"
reqwest = { version = "0.12", default-features = false, features = ["json", "rustls-tls"] }
rusqlite = { version = "*", features = ["bundled"] }
serde = { version = "1", features = ["derive"] }
serde_json = "1"
serde_repr = "0.1"
sysinfo = "*"
tar = "0.4"
tempfile = "3"
tokio = { version = "1", features = ["fs", "rt-multi-thread", "macros"] }
winreg = "*"
zip = { version = "2", default-features = false, features = ["deflate"] }
