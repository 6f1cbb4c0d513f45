[package]
name = "wolfram_parser"
version = "0.1.0"
edition = "2021"
publish = false

[dependencies]
wolfram-expr = "*"
string-interner = "*"
thiserror = "*"
once_cell = "*"
clap = { version = "*", features = ["derive"] }
