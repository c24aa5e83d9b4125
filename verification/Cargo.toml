[package]
name = "relaxng_validator"
version = "0.1.0"
edition = "2021"
publish = false

[dependencies]
bigdecimal = "0.4"
chrono = { version = "0.4", default-features = false, features = ["std"] }
codemap = "0.1"
codemap-diagnostic = "0.1"
fnv = "1"
num-bigint = "0.4"
regex = "1"
structopt = "0.3"
xml-rs = "0.8"
xmlparser = "0.13"
