[package]
name = "phonetics-to-hangul"
version = "0.1.0"
edition = "2021"
publish = false

[dependencies]
anyhow = "=1.0.104"
iui = "=0.3.0"
reqwest = { version = "=0.11.27", features = ["blocking", "json"] }
serde = { version = "=1.0.229", features = ["derive"] }
structopt = "=0.3.26"
unicase = "=2.10.0"
unicode-normalization = "=0.1.26"
yew = "=0.17.4"
