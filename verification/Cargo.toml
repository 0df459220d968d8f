[package]
name = "rson_rs"
version = "0.1.0"
edition = "2021"
publish = false

[dependencies]
itoa = "1"
ryu = "1"
serde = "1"
syn = { version = "2", features = ["full", "extra-traits"] }
proc-macro2 = "1"
thiserror = "1"
