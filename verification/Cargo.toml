[package]
name = "smt_lang"
version = "0.1.0"
edition = "2021"
publish = false

[dependencies]
fraction = "*"
line-col = "*"
clap = { version = "4", features = ["derive"] }
termion = "*"
z3 = "0.12"
lalrpop-util = { version = "*", features = ["lexer"] }
