[package]
name = "ng_transform"
version = "0.1.0"
edition = "2021"
publish = false

[dependencies]
oxc_allocator = "=0.126.0"
oxc_ast = { version = "=0.126.0", features = ["serialize"] }
oxc_estree = { version = "=0.126.0", features = ["serialize"] }
oxc_parser = "=0.126.0"
oxc_semantic = "=0.126.0"
oxc_span = "=0.126.0"
oxc_syntax = "=0.126.0"
oxc_codegen = "=0.126.0"
oxc_transformer = "=0.126.0"
oxc_traverse = "=0.126.0"
serde = "=1.0.229"
serde_json = { version = "=1.0.154", features = ["preserve_order", "unbounded_depth"] }
napi = "=3.16.1"
napi-derive = "=3.7.0"
oxc_coverage_instrument = "=0.12.0"
oxc_coverage_source_maps = "=0.8.0"
oxc_coverage_types = "=0.4.0"
oxc_coverage_v8 = "=0.4.1"
oxc_sourcemap = "=6.1.1"
