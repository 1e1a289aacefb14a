[package]
name = "libexodus"
version = "0.1.0"
edition = "2021"
publish = false

[dependencies]
bincode = "1.3"
sha2 = "0.10"
rand = "0.9"
rand_chacha = "0.9"
chrono = "0.4"
walkdir = "2"
directories = "5"
