[package]
name = "unicorn_rules"
version = "0.1.0"
edition = "2021"
publish = false

[dependencies]
oxc_allocator = "=0.145.0"
oxc_ast = "=0.145.0"
oxc_diagnostics = "=0.145.0"
oxc_parser = "=0.145.0"
oxc_semantic = "=0.145.0"
oxc_span = "=0.145.0"
oxc_syntax = "=0.145.0"
