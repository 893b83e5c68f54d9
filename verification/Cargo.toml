[package]
name = "kernel_elf_parser"
version = "0.1.0"
edition = "2021"
publish = false

[dependencies]
xmas-elf = "0.9"
