[package]
name = "offsetscan"
version = "0.1.4"
edition = "2021"
publish = false

[dependencies]
goblin = "*"
md-5 = "0.10"
sha1 = "0.10"
sha2 = "0.10"
serde = { version = "1", features = ["derive"] }
serde_json = "1"
clap = { version = "4", features = ["derive"] }
rayon = "1"
walkdir = "2"
glob = "0.3"
yara = "*"
