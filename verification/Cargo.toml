[package]
name = "retrofit"
version = "0.1.0"
edition = "2021"
publish = false

[dependencies]
case = "*"
http = "0.2"
mime = "0.3"
encoding_rs = "0.8"
reqwest = { version = "0.11", default-features = false, features = ["blocking", "multipart"] }
syn = { version = "1", features = ["full"] }
proc-macro2 = "1"
serde = "1"
serde_json = "1"
