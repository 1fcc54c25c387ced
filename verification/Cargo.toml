[package]
name = "sisa_assembler"
version = "0.1.0"
edition = "2021"
publish = false

[dependencies]
colorful = "*"
