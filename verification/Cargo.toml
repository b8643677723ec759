[package]
name = "tumour_nuker"
version = "0.1.0"
edition = "2021"
publish = false

[dependencies]
log = "0.4"
rand = "0.9"
rayon = "1"
