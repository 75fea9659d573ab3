[package]
name = "postcard"
version = "0.1.0"
edition = "2021"
publish = false

[dependencies]
cobs = "=0.3.0"
heapless = "=0.8.0"
proptest = "=1.12.0"
quickcheck = "=1.1.0"
crabcheck = "=0.2.0"
