[package]
name = "jmdict_indexer"
version = "0.1.0"
edition = "2021"
publish = false

[dependencies]
anyhow = "=1.0.104"
flate2 = "=1.1.10"
lindera = "=5.3.0"
lindera-tantivy = "=5.0.1"
reqwest = { version = "=0.12.28", features = ["blocking"] }
tantivy = "=0.26.2"
wana_kana = "=5.0.0"
xml-rs = "=0.8.29"
yansi = "=0.5.1"
