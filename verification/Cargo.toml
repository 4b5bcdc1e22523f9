[package]
name = "bpftrace_ls"
version = "0.1.0"
edition = "2021"
publish = false

[dependencies]
btf-rs = "=2.0.0"
json = "=0.12.4"
once_cell = "=1.21.4"
tree-sitter = "=0.25.10"
tree-sitter-bpftrace = "=0.1.1"
