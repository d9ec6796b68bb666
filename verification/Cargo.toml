[package]
name = "translation_engine"
version = "0.1.0"
edition = "2021"
publish = false

[dependencies]
tokenizers = { version = "=0.21.4", default-features = false, features = ["onig"] }
ring = "=0.17.14"
urlencoding = "=2.1.3"
anyhow = "1"
candle-core = "=0.9.2"
candle-transformers = "=0.9.2"
hf-hub = "=0.3.2"
dirs = "5"
sysinfo = "0.34"
ureq = "2"
