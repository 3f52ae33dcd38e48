[package]
name = "payload_dumper"
version = "0.1.0"
edition = "2021"
publish = false

[dependencies]
hex = "0.4"
sha2 = "0.10"
bzip2 = "*"
liblzma = "*"
zstd = "*"
prost = "*"
tokio = { version = "1", features = ["rt-multi-thread", "sync"] }
ureq = "*"
jni = "*"
