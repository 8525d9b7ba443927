[package]
name = "rox"
version = "0.1.0"
edition = "2021"
publish = false

[dependencies]
structopt = "=0.3.26"
codespan-reporting = "=0.11.1"
tempfile = "=3.27.0"
text_io = "=0.1.13"
