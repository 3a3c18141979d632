[package]
name = "pes_savefile"
version = "0.1.0"
edition = "2021"
publish = false

[dependencies]
directories = "=6.0.0"
md-5 = "=0.10.6"
sha2 = "=0.10.9"
toml_edit = "*"
