[package]
name = "c2e"
version = "0.1.0"
edition = "2021"
publish = false

[dependencies]
html-escape = "*"
indoc = "*"
rustyline = "*"
termcolor = "*"
