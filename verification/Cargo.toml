[package]
name = "spider_solitaire"
version = "0.1.0"
edition = "2021"
publish = false

[dependencies]
itertools = "0.12"
radix_fmt = "1"
rand = "0.8"
