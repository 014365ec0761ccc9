[package]
name = "word_filter"
version = "0.1.0"
edition = "2021"
publish = false

[dependencies]
getopts = "0.2"
ureq = "2"
