[package]
name = "asimov-dataset-cli"
version = "0.1.0"
edition = "2021"
publish = false

[dependencies]
borsh = "=1.8.1"
clap = { version = "=4.6.7", features = ["derive", "env"] }
clientele = "=0.3.14"
color-eyre = "=0.6.5"
crossbeam = "=0.8.5"
derive_builder = "=0.20.2"
eyre = "=0.6.14"
indicatif = "=0.18.6"
near-api = { version = "=0.8.6", features = ["keystore"] }
oxrdf = { version = "=0.2.4", features = ["rdf-star"] }
oxrdfio = "=0.1.8"
rdf-borsh = "=0.2.3"
rdf-writer = "=0.2.3"
rdf_rs = "=0.2.3"
tokio = { version = "=1.54.1", features = ["rt-multi-thread", "macros"] }
tracing = "=0.1.44"
