[package]
name = "ts2rust"
version = "0.1.0"
edition = "2021"
publish = false

[dependencies]
oxc_allocator = "=0.139.0"
oxc_ast = "=0.139.0"
oxc_parser = "=0.139.0"
oxc_resolver = "=11.10.0"
oxc_span = "=0.139.0"
oxc_diagnostics = "=0.139.0"
oxc_syntax = "=0.139.0"
