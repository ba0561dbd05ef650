[package]
name = "nsbt"
version = "0.1.0"
edition = "2021"
publish = false

[dependencies]
bytes = "0.4"
clap = "2"
futures = "0.1"
languageserver-types = "*"
log = "0.4"
serde = "1"
serde_derive = "1"
serde_json = "1"
simplelog = "0.5"
tokio-core = "0.1"
tokio-io = "0.1"
tokio-uds = "0.1"
url = "1"
url_serde = "0.2"
