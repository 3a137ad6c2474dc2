[package]
name = "osm_gimmisn"
version = "0.1.0"
edition = "2021"
publish = false

[dependencies]
anyhow = "=1.0.104"
clap = "=4.6.7"
log = "=0.4.34"
serde_json = "=1.0.151"
time = { version = "=0.3.55", features = ["formatting", "parsing"] }
