[package]
name = "ironcore_alloy"
version = "0.1.0"
edition = "2021"
publish = false

[dependencies]
aes-siv = "=0.8.0"
ironcore-documents = "=0.3.2"
protobuf = "=3.7.2"
rand = "=0.10.3"
rand_chacha = "=0.10.0"
