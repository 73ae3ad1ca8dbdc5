[package]
name = "synd"
version = "0.1.0"
edition = "2021"
publish = false

[dependencies]
uuid = { version = "1", features = ["v4", "serde"] }
atom_syndication = "0.12"
rss = "2"
serde = { version = "1", features = ["derive"] }
serde_json = "1"
minreq = "2"
anyhow = "1"
bpaf = "0.9"
libc = "0.2"
