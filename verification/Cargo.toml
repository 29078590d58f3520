[package]
name = "style_resolve"
version = "0.1.0"
edition = "2021"
publish = false

[dependencies]
ego-tree = "*"
regex = "1"
lightningcss = { version = "1.0.0-alpha.50", default-features = false }
swc_atoms = "*"
swc_common = "*"
swc_ecma_ast = "*"
swc_ecma_visit = "*"
