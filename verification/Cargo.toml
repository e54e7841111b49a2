[package]
name = "ubi_doc"
version = "0.1.0"
edition = "2021"
publish = false

[dependencies]
tree-sitter = "=0.25.10"
tree-sitter-php = "=0.25.1"
tree-sitter-java = "=0.23.5"
tree-sitter-ruby = "=0.23.1"
clap = { version = "=4.6.7", features = ["derive"] }
walkdir = "=2.5.0"
tera = "=2.4.0"
serde = { version = "=1.0.229", features = ["derive"] }
rayon = "=1.12.0"
