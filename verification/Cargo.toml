[package]
name = "macho"
version = "0.1.0"
edition = "2021"
publish = false

[dependencies]
goblin = "0.10"
smallvec = "1"
failure = "0.1"
debugid = "0.7"
uuid = "0.8"
