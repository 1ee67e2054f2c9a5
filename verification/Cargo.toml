[package]
name = "livetraffic"
version = "0.1.0"
edition = "2021"
publish = false

[dependencies]
attohttpc = { version = "*", features = ["json"] }
cookie = "*"
crossbeam-channel = "*"
crossbeam-deque = "*"
csv = "*"
log = "*"
radix_fmt = "*"
rand = "*"
regex = "*"
serde = { version = "*", features = ["derive"] }
serde_json = "*"
simplelog = "*"
